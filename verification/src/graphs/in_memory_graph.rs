//! The in-memory index over a flow-graph document: one cell per node in an
//! arena, a map from identity to cell, a map from type to cells, and for
//! every cell the cells on either side of its edges.

use crate::graphs::fx_index::{
    id_entries, id_map_clear, id_map_clone, id_map_get, id_map_insert, id_map_new,
    no_id_entries, no_type_entries, type_entries, type_map_clear, type_map_clone, type_map_get,
    type_map_insert, type_map_new, type_map_remove,
};
use crate::graphs::{
    first_node_with_id, neighbours, Follow, GraphEdge, GraphNode, GraphObject,
};
use crate::lookup::{lemma_first_named, lemma_first_named_is};
use rustc_hash::FxHashMap;
use vstd::prelude::*;
use vstd::string::*;

verus! {

/// One cell of the index. Neighbours are named by their position in the
/// arena of the graph that owns the cell.
#[derive(Debug)]
pub struct InMemoryNode {
    pub node_data: GraphNode,
    /// The cells with an edge into this one, one entry per edge.
    pub source_connections: Vec<usize>,
    /// The cells that this one has an edge to, one entry per edge.
    pub target_connections: Vec<usize>,
}

/// The index: the arena of cells with its two lookup maps.
#[derive(Debug)]
pub struct InMemoryGraph {
    pub nodes: Vec<InMemoryNode>,
    pub nodes_by_type: FxHashMap<String, Vec<usize>>,
    pub nodes_by_id: FxHashMap<String, usize>,
}

/// Why a document could not be indexed.
#[derive(Debug)]
pub enum GraphError {
    /// Two nodes of the document carry this identity.
    DuplicateIdentity(String),
}

/// The text of `DuplicateIdentity` for an identity.
pub open spec fn duplicate_text(id: Seq<char>) -> Seq<char> {
    "Should not have duplicate IDs. Duplicate found: "@ + id
}

impl GraphError {
    /// The error in words.
    pub fn message(&self) -> (text: String)
        ensures
            self matches GraphError::DuplicateIdentity(id) && text@ == duplicate_text(id@),
    {
        match self {
            GraphError::DuplicateIdentity(id) => {
                let mut text: String = "Should not have duplicate IDs. Duplicate found: ".to_owned();
                text.append(id.as_str());
                text
            },
        }
    }
}

/// No two nodes share an identity.
pub open spec fn distinct_ids(nodes: Seq<GraphNode>) -> bool {
    forall|i: int, j: int|
        0 <= i < j < nodes.len() ==> (#[trigger] nodes[i]).id@ != (#[trigger] nodes[j]).id@
}

/// The node at `at` is the first to repeat an identity that an earlier node
/// carries.
pub open spec fn first_repeated(nodes: Seq<GraphNode>, at: int) -> bool {
    &&& 0 <= at < nodes.len()
    &&& distinct_ids(nodes.take(at))
    &&& exists|i: int| 0 <= i < at && (#[trigger] nodes[i]).id@ == nodes[at].id@
}

/// The identity map of a node list: each identity that occurs, with the
/// position of the node that carries it.
pub open spec fn id_map_of(nodes: Seq<GraphNode>) -> Map<Seq<char>, usize> {
    Map::new(
        |id: Seq<char>| first_node_with_id(nodes, id) < nodes.len(),
        |id: Seq<char>| first_node_with_id(nodes, id) as usize,
    )
}

/// The positions of the nodes of type `node_type`, ascending.
pub open spec fn positions_of_type(nodes: Seq<GraphNode>, node_type: Seq<char>) -> Seq<usize>
    decreases nodes.len(),
{
    if nodes.len() == 0 {
        Seq::empty()
    } else {
        let before = positions_of_type(nodes.drop_last(), node_type);
        if nodes.last().node_type@ == node_type {
            before.push((nodes.len() - 1) as usize)
        } else {
            before
        }
    }
}

/// The type map of a node list: each type that occurs, with the positions
/// of its nodes.
pub open spec fn type_map_of(nodes: Seq<GraphNode>) -> Map<Seq<char>, Seq<usize>> {
    Map::new(
        |node_type: Seq<char>| positions_of_type(nodes, node_type).len() > 0,
        |node_type: Seq<char>| positions_of_type(nodes, node_type),
    )
}

/// The cells that `at` has an edge to: one position for each edge that
/// leaves the node at `at` and arrives at a node of the list, in edge
/// order. An edge with an end that names no node adds nothing.
pub open spec fn targets_of(nodes: Seq<GraphNode>, edges: Seq<GraphEdge>, at: int) -> Seq<usize>
    decreases edges.len(),
{
    if edges.len() == 0 {
        Seq::empty()
    } else {
        let before = targets_of(nodes, edges.drop_last(), at);
        let source = first_node_with_id(nodes, edges.last().source@);
        let target = first_node_with_id(nodes, edges.last().target@);
        if source == at && source < nodes.len() && target < nodes.len() {
            before.push(target as usize)
        } else {
            before
        }
    }
}

/// The cells with an edge into `at`: one position for each edge that
/// arrives at the node at `at` and leaves a node of the list, in edge order.
pub open spec fn sources_of(nodes: Seq<GraphNode>, edges: Seq<GraphEdge>, at: int) -> Seq<usize>
    decreases edges.len(),
{
    if edges.len() == 0 {
        Seq::empty()
    } else {
        let before = sources_of(nodes, edges.drop_last(), at);
        let source = first_node_with_id(nodes, edges.last().source@);
        let target = first_node_with_id(nodes, edges.last().target@);
        if target == at && source < nodes.len() && target < nodes.len() {
            before.push(source as usize)
        } else {
            before
        }
    }
}

impl Clone for InMemoryNode {
    fn clone(&self) -> (copy: Self)
        ensures
            copy.node_data == self.node_data,
            copy.source_connections@ == self.source_connections@,
            copy.target_connections@ == self.target_connections@,
    {
        let copy = InMemoryNode {
            node_data: self.node_data.clone(),
            source_connections: self.source_connections.clone(),
            target_connections: self.target_connections.clone(),
        };
        assert(copy.source_connections@ =~= self.source_connections@);
        assert(copy.target_connections@ =~= self.target_connections@);
        copy
    }
}

impl Clone for InMemoryGraph {
    /// A second index with cells of its own: the same node data, the same
    /// neighbour positions and the same entries in both maps.
    fn clone(&self) -> (copy: Self)
        ensures
            copy.nodes@.len() == self.nodes@.len(),
            forall|i: int|
                0 <= i < self.nodes@.len() ==> (#[trigger] copy.nodes@[i]).node_data
                    == self.nodes@[i].node_data && copy.nodes@[i].source_connections@
                    == self.nodes@[i].source_connections@ && copy.nodes@[i].target_connections@
                    == self.nodes@[i].target_connections@,
            id_entries(copy.nodes_by_id) == id_entries(self.nodes_by_id),
            type_entries(copy.nodes_by_type) == type_entries(self.nodes_by_type),
    {
        let mut nodes: Vec<InMemoryNode> = Vec::new();
        let mut i: usize = 0;
        while i < self.nodes.len()
            invariant
                i <= self.nodes@.len(),
                nodes@.len() == i,
                forall|k: int|
                    0 <= k < i ==> (#[trigger] nodes@[k]).node_data == self.nodes@[k].node_data
                        && nodes@[k].source_connections@ == self.nodes@[k].source_connections@
                        && nodes@[k].target_connections@ == self.nodes@[k].target_connections@,
            decreases self.nodes@.len() - i,
        {
            nodes.push(self.nodes[i].clone());
            i += 1;
        }
        InMemoryGraph {
            nodes,
            nodes_by_type: type_map_clone(&self.nodes_by_type),
            nodes_by_id: id_map_clone(&self.nodes_by_id),
        }
    }
}

impl InMemoryNode {
    /// A cell for `graph_node` that has no neighbours yet.
    pub fn from_graph_node(graph_node: &GraphNode) -> (cell: InMemoryNode)
        ensures
            cell.node_data == *graph_node,
            cell.source_connections@.len() == 0,
            cell.target_connections@.len() == 0,
    {
        InMemoryNode {
            node_data: graph_node.clone(),
            source_connections: Vec::new(),
            target_connections: Vec::new(),
        }
    }
}

impl InMemoryGraph {
    /// The node data of the cells, in arena order.
    pub open spec fn node_data(&self) -> Seq<GraphNode> {
        Seq::new(self.nodes@.len(), |i: int| self.nodes@[i].node_data)
    }

    /// The lookup maps agree with the arena: identities are unique, the
    /// identity map names each cell's position, the type map lists each
    /// type's cells, and every neighbour is a cell of the arena.
    pub open spec fn wf(&self) -> bool {
        &&& distinct_ids(self.node_data())
        &&& id_entries(self.nodes_by_id) == id_map_of(self.node_data())
        &&& type_entries(self.nodes_by_type) == type_map_of(self.node_data())
        &&& forall|i: int, k: int|
            0 <= i < self.nodes@.len() && 0 <= k < self.nodes@[i].source_connections@.len()
                ==> #[trigger] self.nodes@[i].source_connections@[k] < self.nodes@.len()
        &&& forall|i: int, k: int|
            0 <= i < self.nodes@.len() && 0 <= k < self.nodes@[i].target_connections@.len()
                ==> #[trigger] self.nodes@[i].target_connections@[k] < self.nodes@.len()
    }

    /// This graph is the index of the document made of `nodes` and `edges`.
    pub open spec fn indexes(&self, nodes: Seq<GraphNode>, edges: Seq<GraphEdge>) -> bool {
        &&& self.node_data() == nodes
        &&& id_entries(self.nodes_by_id) == id_map_of(nodes)
        &&& type_entries(self.nodes_by_type) == type_map_of(nodes)
        &&& forall|i: int|
            0 <= i < nodes.len() ==> (#[trigger] self.nodes@[i]).target_connections@ == targets_of(
                nodes,
                edges,
                i,
            )
        &&& forall|i: int|
            0 <= i < nodes.len() ==> (#[trigger] self.nodes@[i]).source_connections@ == sources_of(
                nodes,
                edges,
                i,
            )
    }

    /// The index holds nothing: no cell and no entry in either map.
    pub open spec fn is_disposed(&self) -> bool {
        &&& self.nodes@.len() == 0
        &&& id_entries(self.nodes_by_id) == no_id_entries()
        &&& type_entries(self.nodes_by_type) == no_type_entries()
    }

    /// The cell that `find_node` answers with.
    pub open spec fn spec_find_node(&self, id: Seq<char>) -> Option<InMemoryNode> {
        if id_entries(self.nodes_by_id).contains_key(id) && id_entries(self.nodes_by_id)[id]
            < self.nodes@.len() {
            Some(self.nodes@[id_entries(self.nodes_by_id)[id] as int])
        } else {
            None
        }
    }

    /// The positions that `find_by_type` answers with.
    pub open spec fn spec_find_by_type(&self, node_type: Seq<char>) -> Option<Seq<usize>> {
        if type_entries(self.nodes_by_type).contains_key(node_type) {
            Some(type_entries(self.nodes_by_type)[node_type])
        } else {
            None
        }
    }

    /// Builds the index of a document. A document in which two nodes share
    /// an identity is rejected, with the first identity met a second time.
    /// An edge with an end that names no node is left out.
    pub fn from_graph_object(graph_object: GraphObject) -> (built: Result<InMemoryGraph, GraphError>)
        ensures
            built.is_ok() <==> distinct_ids(graph_object.nodes@),
            built matches Ok(graph) ==> graph.wf() && graph.indexes(
                graph_object.nodes@,
                graph_object.edges@,
            ),
            built matches Err(GraphError::DuplicateIdentity(id)) ==> exists|at: int|
                first_repeated(graph_object.nodes@, at) && id@ == (
                #[trigger] graph_object.nodes@[at]).id@,
    {
        let ghost doc_nodes = graph_object.nodes@;
        let ghost doc_edges = graph_object.edges@;
        let mut cells: Vec<InMemoryNode> = Vec::new();
        let mut by_type = type_map_new();
        let mut by_id = id_map_new();
        proof {
            assert(id_entries(by_id) =~= id_map_of(doc_nodes.take(0)));
            assert(type_entries(by_type) =~= type_map_of(doc_nodes.take(0)));
        }
        let mut i: usize = 0;
        while i < graph_object.nodes.len()
            invariant
                i <= graph_object.nodes.len(),
                doc_nodes == graph_object.nodes@,
                cells@.len() == i,
                forall|k: int| 0 <= k < i ==> (#[trigger] cells@[k]).node_data == doc_nodes[k],
                forall|k: int| 0 <= k < i ==> (#[trigger] cells@[k]).source_connections@.len() == 0,
                forall|k: int| 0 <= k < i ==> (#[trigger] cells@[k]).target_connections@.len() == 0,
                distinct_ids(doc_nodes.take(i as int)),
                id_entries(by_id) == id_map_of(doc_nodes.take(i as int)),
                type_entries(by_type) == type_map_of(doc_nodes.take(i as int)),
            decreases graph_object.nodes.len() - i,
        {
            let node = &graph_object.nodes[i];
            let cell = InMemoryNode::from_graph_node(node);
            proof {
                lemma_first_named(doc_nodes.take(i as int), node.id@);
            }
            let before = id_map_insert(&mut by_id, node.id.clone(), i);
            if before.is_some() {
                proof {
                    let earlier = first_node_with_id(doc_nodes.take(i as int), node.id@);
                    assert(doc_nodes.take(i as int)[earlier] == doc_nodes[earlier]);
                    assert(first_repeated(doc_nodes, i as int));
                    assert(!distinct_ids(doc_nodes));
                }
                return Err(GraphError::DuplicateIdentity(node.id.clone()));
            }
            proof {
                lemma_distinct_step(doc_nodes, i as int);
                lemma_id_map_step(doc_nodes, i as int);
                lemma_type_map_step(doc_nodes, i as int);
            }
            let mut bucket = match type_map_remove(&mut by_type, node.node_type.as_str()) {
                Some(bucket) => bucket,
                None => Vec::new(),
            };
            proof {
                assert(bucket@ =~= positions_of_type(doc_nodes.take(i as int), node.node_type@));
            }
            bucket.push(i);
            type_map_insert(&mut by_type, node.node_type.clone(), bucket);
            cells.push(cell);
            i += 1;
        }
        proof {
            assert(doc_nodes.take(i as int) == doc_nodes);
        }
        let mut j: usize = 0;
        while j < graph_object.edges.len()
            invariant
                j <= graph_object.edges.len(),
                doc_nodes == graph_object.nodes@,
                doc_edges == graph_object.edges@,
                cells@.len() == doc_nodes.len(),
                doc_nodes.len() <= usize::MAX,
                forall|k: int|
                    0 <= k < doc_nodes.len() ==> (#[trigger] cells@[k]).node_data == doc_nodes[k],
                forall|k: int|
                    0 <= k < doc_nodes.len() ==> (#[trigger] cells@[k]).target_connections@
                        == targets_of(doc_nodes, doc_edges.take(j as int), k),
                forall|k: int|
                    0 <= k < doc_nodes.len() ==> (#[trigger] cells@[k]).source_connections@
                        == sources_of(doc_nodes, doc_edges.take(j as int), k),
                id_entries(by_id) == id_map_of(doc_nodes),
            decreases graph_object.edges.len() - j,
        {
            let edge = &graph_object.edges[j];
            let source = id_map_get(&by_id, edge.source.as_str());
            let target = id_map_get(&by_id, edge.target.as_str());
            proof {
                lemma_first_named(doc_nodes, edge.source@);
                lemma_first_named(doc_nodes, edge.target@);
            }
            let ghost earlier = cells@;
            match (source, target) {
                (Some(s), Some(t)) => {
                    link(&mut cells, s, t);
                },
                _ => {},
            }
            proof {
                let source_at = first_node_with_id(doc_nodes, edge.source@);
                let target_at = first_node_with_id(doc_nodes, edge.target@);
                let adds = edge_adds(doc_nodes, doc_edges[j as int]);
                assert(doc_edges[j as int] == *edge);
                assert(adds == (source.is_some() && target.is_some()));
                assert(source.is_some() ==> source.unwrap() == source_at);
                assert(target.is_some() ==> target.unwrap() == target_at);
                lemma_edge_step(doc_nodes, doc_edges, j as int);
                assert forall|k: int| 0 <= k < doc_nodes.len() implies (#[trigger] cells@[k]).target_connections@
                    == targets_of(doc_nodes, doc_edges.take(j + 1), k) by {
                    assert(earlier[k].target_connections@ == targets_of(
                        doc_nodes,
                        doc_edges.take(j as int),
                        k,
                    ));
                    if adds && source_at == k {
                        assert(cells@[k].target_connections@ == earlier[k].target_connections@.push(
                            target_at as usize,
                        ));
                    } else {
                        assert(cells@[k].target_connections@ == earlier[k].target_connections@);
                    }
                }
                assert forall|k: int| 0 <= k < doc_nodes.len() implies (#[trigger] cells@[k]).source_connections@
                    == sources_of(doc_nodes, doc_edges.take(j + 1), k) by {
                    assert(earlier[k].source_connections@ == sources_of(
                        doc_nodes,
                        doc_edges.take(j as int),
                        k,
                    ));
                    if adds && target_at == k {
                        assert(cells@[k].source_connections@ == earlier[k].source_connections@.push(
                            source_at as usize,
                        ));
                    } else {
                        assert(cells@[k].source_connections@ == earlier[k].source_connections@);
                    }
                }
            }
            j += 1;
        }
        let graph = InMemoryGraph { nodes: cells, nodes_by_type: by_type, nodes_by_id: by_id };
        proof {
            assert(doc_edges.take(j as int) == doc_edges);
            assert(graph.node_data() =~= doc_nodes);
            lemma_connections_in_range(doc_nodes, doc_edges);
        }
        Ok(graph)
    }

    /// The cell of the node named `id`.
    pub fn find_node(&self, id: &str) -> (found: Option<&InMemoryNode>)
        ensures
            found.is_some() == self.spec_find_node(id@).is_some(),
            found matches Some(cell) ==> Some(*cell) == self.spec_find_node(id@),
    {
        match id_map_get(&self.nodes_by_id, id) {
            Some(at) => if at < self.nodes.len() {
                Some(&self.nodes[at])
            } else {
                None
            },
            None => None,
        }
    }

    /// The arena positions of the nodes of type `node_type`.
    pub fn find_by_type(&self, node_type: &str) -> (found: Option<&Vec<usize>>)
        ensures
            found.is_some() == self.spec_find_by_type(node_type@).is_some(),
            found matches Some(list) ==> Some(list@) == self.spec_find_by_type(node_type@),
    {
        type_map_get(&self.nodes_by_type, node_type)
    }

    /// Empties the index: both maps and the arena, and with the arena every
    /// neighbour list. Disposing of an empty index changes nothing.
    pub fn dispose(&mut self)
        ensures
            final(self).is_disposed(),
            final(self).wf(),
    {
        id_map_clear(&mut self.nodes_by_id);
        type_map_clear(&mut self.nodes_by_type);
        self.nodes.clear();
        proof {
            assert(id_entries(self.nodes_by_id) =~= id_map_of(self.node_data()));
            assert(type_entries(self.nodes_by_type) =~= type_map_of(self.node_data()));
        }
    }
}

/// The neighbour lists that one more edge gives: the edge adds its target
/// to the targets of its source and its source to the sources of its
/// target, where both ends name a node, and nothing otherwise.
pub open spec fn edge_adds(nodes: Seq<GraphNode>, edge: GraphEdge) -> bool {
    first_node_with_id(nodes, edge.source@) < nodes.len() && first_node_with_id(
        nodes,
        edge.target@,
    ) < nodes.len()
}

/// Taking one edge more appends to the neighbour lists of its two ends, if
/// both name a node, and leaves every other list alone.
pub proof fn lemma_edge_step(nodes: Seq<GraphNode>, edges: Seq<GraphEdge>, j: int)
    requires
        0 <= j < edges.len(),
    ensures
        forall|k: int|
            #[trigger] targets_of(nodes, edges.take(j + 1), k) == if edge_adds(nodes, edges[j])
                && first_node_with_id(nodes, edges[j].source@) == k {
                targets_of(nodes, edges.take(j), k).push(
                    first_node_with_id(nodes, edges[j].target@) as usize,
                )
            } else {
                targets_of(nodes, edges.take(j), k)
            },
        forall|k: int|
            #[trigger] sources_of(nodes, edges.take(j + 1), k) == if edge_adds(nodes, edges[j])
                && first_node_with_id(nodes, edges[j].target@) == k {
                sources_of(nodes, edges.take(j), k).push(
                    first_node_with_id(nodes, edges[j].source@) as usize,
                )
            } else {
                sources_of(nodes, edges.take(j), k)
            },
{
    assert(edges.take(j + 1).drop_last() == edges.take(j));
    assert(edges.take(j + 1).last() == edges[j]);
}

/// Records one edge between two cells of the arena.
fn link(cells: &mut Vec<InMemoryNode>, source: usize, target: usize)
    requires
        source < old(cells)@.len(),
        target < old(cells)@.len(),
    ensures
        final(cells)@.len() == old(cells)@.len(),
        forall|k: int|
            0 <= k < old(cells)@.len() ==> (#[trigger] final(cells)@[k]).node_data == old(
                cells,
            )@[k].node_data,
        forall|k: int|
            0 <= k < old(cells)@.len() ==> (#[trigger] final(cells)@[k]).target_connections@ == if k
                == source {
                old(cells)@[k].target_connections@.push(target)
            } else {
                old(cells)@[k].target_connections@
            },
        forall|k: int|
            0 <= k < old(cells)@.len() ==> (#[trigger] final(cells)@[k]).source_connections@ == if k
                == target {
                old(cells)@[k].source_connections@.push(source)
            } else {
                old(cells)@[k].source_connections@
            },
{
    cells[source].target_connections.push(target);
    cells[target].source_connections.push(source);
}

/// A node whose identity is new keeps the identities distinct.
pub proof fn lemma_distinct_step(nodes: Seq<GraphNode>, i: int)
    requires
        0 <= i < nodes.len(),
        distinct_ids(nodes.take(i)),
        first_node_with_id(nodes.take(i), nodes[i].id@) == i,
    ensures
        distinct_ids(nodes.take(i + 1)),
{
    lemma_first_named(nodes.take(i), nodes[i].id@);
    assert forall|a: int, b: int| 0 <= a < b < i + 1 implies (#[trigger] nodes.take(i + 1)[a]).id@ != (
    #[trigger] nodes.take(i + 1)[b]).id@ by {
        if b < i {
            assert(nodes.take(i)[a].id@ != nodes.take(i)[b].id@);
        } else {
            assert(nodes.take(i)[a].id@ != nodes[i].id@);
        }
    }
}

/// Taking one node more adds that node's identity to the identity map.
pub proof fn lemma_id_map_step(nodes: Seq<GraphNode>, i: int)
    requires
        0 <= i < nodes.len(),
        first_node_with_id(nodes.take(i), nodes[i].id@) == i,
    ensures
        id_map_of(nodes.take(i + 1)) == id_map_of(nodes.take(i)).insert(nodes[i].id@, i as usize),
{
    let short = nodes.take(i);
    let long = nodes.take(i + 1);
    assert forall|id: Seq<char>|
        first_node_with_id(long, id) == #[trigger] first_node_with_id(short, id) + (if id
            == nodes[i].id@ || first_node_with_id(short, id) < i {
            0int
        } else {
            1int
        }) by {
        lemma_first_named(short, id);
        let first = first_node_with_id(short, id);
        assert forall|j: int| 0 <= j < first implies (#[trigger] long[j]).id@ != id by {
            assert(short[j].id@ != id);
        }
        if first < i {
            assert(long[first] == short[first]);
            lemma_first_named_is(long, id, first);
        } else if id == nodes[i].id@ {
            lemma_first_named_is(long, id, i);
        } else {
            lemma_first_named_is(long, id, i + 1);
        }
    }
    assert(id_map_of(long) =~= id_map_of(short).insert(nodes[i].id@, i as usize));
}

/// Taking one node more appends its position to the list of its type and
/// leaves the other lists alone.
pub proof fn lemma_type_map_step(nodes: Seq<GraphNode>, i: int)
    requires
        0 <= i < nodes.len(),
        i <= usize::MAX,
    ensures
        type_map_of(nodes.take(i + 1)) == type_map_of(nodes.take(i)).remove(
            nodes[i].node_type@,
        ).insert(
            nodes[i].node_type@,
            positions_of_type(nodes.take(i), nodes[i].node_type@).push(i as usize),
        ),
{
    let short = nodes.take(i);
    let long = nodes.take(i + 1);
    assert(long.drop_last() == short);
    assert(type_map_of(long) =~= type_map_of(short).remove(nodes[i].node_type@).insert(
        nodes[i].node_type@,
        positions_of_type(short, nodes[i].node_type@).push(i as usize),
    ));
}

/// Every neighbour that the edges give a node is a position of the list.
pub proof fn lemma_connections_in_range(nodes: Seq<GraphNode>, edges: Seq<GraphEdge>)
    ensures
        forall|i: int, k: int|
            0 <= k < targets_of(nodes, edges, i).len() ==> #[trigger] targets_of(nodes, edges, i)[k]
                < nodes.len(),
        forall|i: int, k: int|
            0 <= k < sources_of(nodes, edges, i).len() ==> #[trigger] sources_of(nodes, edges, i)[k]
                < nodes.len(),
    decreases edges.len(),
{
    if edges.len() > 0 {
        lemma_connections_in_range(nodes, edges.drop_last());
        assert forall|i: int, k: int| 0 <= k < targets_of(nodes, edges, i).len() implies #[trigger] targets_of(
            nodes,
            edges,
            i,
        )[k] < nodes.len() by {
            let before = targets_of(nodes, edges.drop_last(), i);
            let target = first_node_with_id(nodes, edges.last().target@);
            lemma_first_named(nodes, edges.last().target@);
            if k < before.len() {
                assert(before[k] < nodes.len());
            } else if target <= usize::MAX {
                assert(target as usize == target);
            }
        }
        assert forall|i: int, k: int| 0 <= k < sources_of(nodes, edges, i).len() implies #[trigger] sources_of(
            nodes,
            edges,
            i,
        )[k] < nodes.len() by {
            let before = sources_of(nodes, edges.drop_last(), i);
            let source = first_node_with_id(nodes, edges.last().source@);
            lemma_first_named(nodes, edges.last().source@);
            if k < before.len() {
                assert(before[k] < nodes.len());
            } else if source <= usize::MAX {
                assert(source as usize == source);
            }
        }
    }
}

/// Some node of the list carries the identity.
pub open spec fn has_node(nodes: Seq<GraphNode>, id: Seq<char>) -> bool {
    exists|i: int| 0 <= i < nodes.len() && (#[trigger] nodes[i]).id@ == id
}

/// The edge names, at one end or at both, an identity that no node carries.
pub open spec fn is_dangling(nodes: Seq<GraphNode>, edge: GraphEdge) -> bool {
    !has_node(nodes, edge.source@) || !has_node(nodes, edge.target@)
}

/// `first_node_with_id` finds a node exactly where one carries the identity.
pub proof fn lemma_has_node(nodes: Seq<GraphNode>, id: Seq<char>)
    ensures
        has_node(nodes, id) <==> first_node_with_id(nodes, id) < nodes.len(),
{
    lemma_first_named(nodes, id);
    if has_node(nodes, id) {
        let i = choose|i: int| 0 <= i < nodes.len() && (#[trigger] nodes[i]).id@ == id;
        if first_node_with_id(nodes, id) >= nodes.len() {
            assert(nodes[i].id@ != id);
        }
    } else if first_node_with_id(nodes, id) < nodes.len() {
        assert(nodes[first_node_with_id(nodes, id)].id@ == id);
    }
}

/// With distinct identities the identity map has one entry per node.
pub proof fn lemma_id_map_size(nodes: Seq<GraphNode>)
    requires
        distinct_ids(nodes),
    ensures
        id_map_of(nodes).dom().finite(),
        id_map_of(nodes).dom().len() == nodes.len(),
    decreases nodes.len(),
{
    if nodes.len() == 0 {
        assert(id_map_of(nodes).dom() =~= Set::<Seq<char>>::empty());
    } else {
        let last = nodes.len() - 1;
        let short = nodes.take(last);
        assert(nodes.take(last + 1) == nodes);
        assert forall|i: int, j: int| 0 <= i < j < short.len() implies (#[trigger] short[i]).id@ != (
        #[trigger] short[j]).id@ by {
            assert(nodes[i].id@ != nodes[j].id@);
        }
        lemma_id_map_size(short);
        lemma_first_named(short, nodes[last].id@);
        if first_node_with_id(short, nodes[last].id@) < last {
            let earlier = first_node_with_id(short, nodes[last].id@);
            assert(short[earlier] == nodes[earlier]);
            assert(nodes[earlier].id@ != nodes[last].id@);
        }
        lemma_id_map_step(nodes, last);
        assert(id_map_of(nodes).dom() =~= id_map_of(short).dom().insert(nodes[last].id@));
    }
}

/// An index built from a document with distinct identities has exactly one
/// identity entry per node, and a lookup by identity finds a cell exactly
/// for the identities that occur in the document: the cell of that node.
pub proof fn lemma_index_covers_identities(
    graph: InMemoryGraph,
    nodes: Seq<GraphNode>,
    edges: Seq<GraphEdge>,
)
    requires
        graph.indexes(nodes, edges),
        distinct_ids(nodes),
    ensures
        id_entries(graph.nodes_by_id).dom().finite(),
        id_entries(graph.nodes_by_id).dom().len() == nodes.len(),
        forall|i: int|
            0 <= i < nodes.len() ==> graph.spec_find_node((#[trigger] nodes[i]).id@) == Some(
                graph.nodes@[i],
            ),
        forall|id: Seq<char>| #[trigger] graph.spec_find_node(id).is_some() <==> has_node(nodes, id),
{
    lemma_id_map_size(nodes);
    assert(graph.nodes@.len() == graph.node_data().len());
    assert forall|i: int| 0 <= i < nodes.len() implies graph.spec_find_node(
        (#[trigger] nodes[i]).id@,
    ) == Some(graph.nodes@[i]) by {
        assert forall|j: int| 0 <= j < i implies (#[trigger] nodes[j]).id@ != nodes[i].id@ by {}
        lemma_first_named_is(nodes, nodes[i].id@, i);
        assert(id_map_of(nodes).contains_key(nodes[i].id@));
        vstd::std_specs::vec::axiom_spec_len(&graph.nodes);
    }
    assert forall|id: Seq<char>| #[trigger] graph.spec_find_node(id).is_some() <==> has_node(
        nodes,
        id,
    ) by {
        lemma_has_node(nodes, id);
        lemma_first_named(nodes, id);
    }
}

/// Taking a dangling edge out of the edge list changes no neighbour list.
pub proof fn lemma_dangling_edge_adds_nothing(
    nodes: Seq<GraphNode>,
    edges: Seq<GraphEdge>,
    k: int,
    at: int,
)
    requires
        0 <= k < edges.len(),
        is_dangling(nodes, edges[k]),
    ensures
        targets_of(nodes, edges, at) == targets_of(nodes, edges.remove(k), at),
        sources_of(nodes, edges, at) == sources_of(nodes, edges.remove(k), at),
    decreases edges.len(),
{
    lemma_has_node(nodes, edges[k].source@);
    lemma_has_node(nodes, edges[k].target@);
    lemma_first_named(nodes, edges[k].source@);
    lemma_first_named(nodes, edges[k].target@);
    if k == edges.len() - 1 {
        assert(edges.remove(k) =~= edges.drop_last());
    } else {
        assert(edges.remove(k).drop_last() =~= edges.drop_last().remove(k));
        assert(edges.remove(k).last() == edges.last());
        lemma_dangling_edge_adds_nothing(nodes, edges.drop_last(), k, at);
    }
}

/// An edge with an end that names no node leaves no trace in the index of
/// its document: every cell has the neighbours that the other edges give
/// it, and an end that does name a node is found under its identity.
pub proof fn lemma_dangling_edge_is_dropped(
    graph: InMemoryGraph,
    nodes: Seq<GraphNode>,
    edges: Seq<GraphEdge>,
    k: int,
)
    requires
        graph.indexes(nodes, edges),
        distinct_ids(nodes),
        0 <= k < edges.len(),
        is_dangling(nodes, edges[k]),
    ensures
        forall|i: int|
            0 <= i < nodes.len() ==> (#[trigger] graph.nodes@[i]).target_connections@
                == targets_of(nodes, edges.remove(k), i),
        forall|i: int|
            0 <= i < nodes.len() ==> (#[trigger] graph.nodes@[i]).source_connections@
                == sources_of(nodes, edges.remove(k), i),
        has_node(nodes, edges[k].source@) ==> graph.spec_find_node(edges[k].source@).is_some(),
        has_node(nodes, edges[k].target@) ==> graph.spec_find_node(edges[k].target@).is_some(),
{
    lemma_index_covers_identities(graph, nodes, edges);
    assert forall|i: int| 0 <= i < nodes.len() implies (#[trigger] graph.nodes@[i]).target_connections@
        == targets_of(nodes, edges.remove(k), i) by {
        lemma_dangling_edge_adds_nothing(nodes, edges, k, i);
    }
    assert forall|i: int| 0 <= i < nodes.len() implies (#[trigger] graph.nodes@[i]).source_connections@
        == sources_of(nodes, edges.remove(k), i) by {
        lemma_dangling_edge_adds_nothing(nodes, edges, k, i);
    }
}

/// The nodes that stand at the given positions.
pub open spec fn nodes_at(nodes: Seq<GraphNode>, positions: Seq<usize>) -> Seq<GraphNode> {
    Seq::new(positions.len(), |k: int| nodes[positions[k] as int])
}

/// The neighbour lists of the index name the nodes that a scan of the
/// document finds: for a document with distinct identities, the targets
/// and the sources recorded for a node are the nodes that the document's
/// own neighbour queries answer with, in the same order.
pub proof fn lemma_neighbours_agree_with_document(
    nodes: Seq<GraphNode>,
    edges: Seq<GraphEdge>,
    at: int,
)
    requires
        distinct_ids(nodes),
        0 <= at < nodes.len() <= usize::MAX,
    ensures
        neighbours(nodes, edges, nodes[at].id@, Follow::Targets) == nodes_at(
            nodes,
            targets_of(nodes, edges, at),
        ),
        neighbours(nodes, edges, nodes[at].id@, Follow::Sources) == nodes_at(
            nodes,
            sources_of(nodes, edges, at),
        ),
    decreases edges.len(),
{
    let id = nodes[at].id@;
    if edges.len() == 0 {
        assert(neighbours(nodes, edges, id, Follow::Targets) =~= nodes_at(
            nodes,
            targets_of(nodes, edges, at),
        ));
        assert(neighbours(nodes, edges, id, Follow::Sources) =~= nodes_at(
            nodes,
            sources_of(nodes, edges, at),
        ));
    } else {
        let edge = edges.last();
        let source = first_node_with_id(nodes, edge.source@);
        let target = first_node_with_id(nodes, edge.target@);
        lemma_neighbours_agree_with_document(nodes, edges.drop_last(), at);
        lemma_first_named(nodes, edge.source@);
        lemma_first_named(nodes, edge.target@);
        assert forall|j: int| 0 <= j < at implies (#[trigger] nodes[j]).id@ != id by {}
        if edge.source@ == id {
            lemma_first_named_is(nodes, edge.source@, at);
        }
        if edge.target@ == id {
            lemma_first_named_is(nodes, edge.target@, at);
        }
        assert(neighbours(nodes, edges, id, Follow::Targets) =~= nodes_at(
            nodes,
            targets_of(nodes, edges, at),
        ));
        assert(neighbours(nodes, edges, id, Follow::Sources) =~= nodes_at(
            nodes,
            sources_of(nodes, edges, at),
        ));
    }
}

/// The list that the type map holds for a type names the nodes of that
/// type, all of them and in document order: the nodes that a scan of the
/// document for the type finds.
pub proof fn lemma_type_list_agrees_with_document(nodes: Seq<GraphNode>, node_type: Seq<char>)
    requires
        nodes.len() <= usize::MAX,
    ensures
        forall|k: int|
            0 <= k < positions_of_type(nodes, node_type).len() ==> #[trigger] positions_of_type(
                nodes,
                node_type,
            )[k] < nodes.len(),
        nodes.filter(|n: GraphNode| n.node_type@ == node_type) == nodes_at(
            nodes,
            positions_of_type(nodes, node_type),
        ),
    decreases nodes.len(),
{
    let keep = |n: GraphNode| n.node_type@ == node_type;
    reveal(Seq::filter);
    if nodes.len() == 0 {
        assert(nodes.filter(keep) =~= nodes_at(nodes, positions_of_type(nodes, node_type)));
    } else {
        let short = nodes.drop_last();
        lemma_type_list_agrees_with_document(short, node_type);
        let before = positions_of_type(short, node_type);
        assert forall|k: int| 0 <= k < before.len() implies nodes[before[k] as int] == nodes_at(
            short,
            before,
        )[k] by {
            assert(before[k] < short.len());
        }
        assert(nodes.filter(keep) =~= nodes_at(nodes, positions_of_type(nodes, node_type)));
    }
}

/// A disposed index answers no query: no identity and no type is found.
pub proof fn lemma_disposed_index_finds_nothing(
    graph: InMemoryGraph,
    id: Seq<char>,
    node_type: Seq<char>,
)
    requires
        graph.is_disposed(),
    ensures
        graph.spec_find_node(id).is_none(),
        graph.spec_find_by_type(node_type).is_none(),
{
}

} // verus!

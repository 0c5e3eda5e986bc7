//! Graph definitions and their validation.
//!
//! A client submits a graph: worker instances plus data connections.
//! Validation checks, before any network call, that every instance's
//! worker type is registered and that every connection's endpoints are
//! declared instances. Handle names are deliberately not checked against
//! the descriptor's slots; a missing output handle surfaces only while
//! gathering inputs during execution.

use vstd::prelude::*;
use vstd::string::StringExecFns;

use crate::error::AppError;
use crate::registry::{reg_contains, NodeRegistry};
use crate::strmap::StrMap;
use crate::value::DataValue;

verus! {

/// A worker instance inside a submitted graph.
#[derive(Debug)]
pub struct GraphNode {
    /// Identifier of this instance, unique within the graph.
    pub instance_id: String,
    /// Identifier of the registered worker type it runs.
    pub node_type_id: String,
    /// Setting values for this instance.
    pub input_values: StrMap<DataValue>,
}

/// A data connection from one instance's output handle to another
/// instance's input handle.
#[derive(Debug, Clone)]
pub struct Connection {
    /// Source instance.
    pub from_node: String,
    /// Output handle on the source instance.
    pub from_handle: String,
    /// Destination instance.
    pub to_node: String,
    /// Input handle on the destination instance.
    pub to_handle: String,
}

/// A submitted graph: instances and the connections between them.
#[derive(Debug)]
pub struct GraphDefinition {
    /// The worker instances of the graph.
    pub nodes: Vec<GraphNode>,
    /// The data connections of the graph.
    pub connections: Vec<Connection>,
}

/// The instance identifiers of the graph, in declaration order.
pub open spec fn node_ids(g: &GraphDefinition) -> Seq<Seq<char>> {
    g.nodes@.map_values(|n: GraphNode| n.instance_id@)
}

/// Whether the graph declares an instance with this identifier.
pub open spec fn declares(g: &GraphDefinition, id: Seq<char>) -> bool {
    exists|i: int| 0 <= i < g.nodes@.len() && g.nodes@[i].instance_id@ == id
}

/// The position of the instance with this identifier, meaningful when it
/// is declared.
pub open spec fn index_of_id(g: &GraphDefinition, id: Seq<char>) -> int {
    choose|i: int| 0 <= i < g.nodes@.len() && g.nodes@[i].instance_id@ == id
}

/// Whether instance identifiers are unique within the graph.
pub open spec fn ids_unique(g: &GraphDefinition) -> bool {
    node_ids(g).no_duplicates()
}

/// Whether every instance's worker type is present in the registry.
pub open spec fn types_known(g: &GraphDefinition, reg: Seq<crate::registry::NodeInfo>) -> bool {
    forall|i: int|
        0 <= i < g.nodes@.len() ==> reg_contains(reg, #[trigger] g.nodes@[i].node_type_id@)
}

/// Whether both endpoints of connection `c` are declared instances.
pub open spec fn conn_endpoints_ok(g: &GraphDefinition, c: int) -> bool {
    &&& declares(g, g.connections@[c].from_node@)
    &&& declares(g, g.connections@[c].to_node@)
}

/// Whether every connection joins declared instances.
pub open spec fn endpoints_declared(g: &GraphDefinition) -> bool {
    forall|c: int| 0 <= c < g.connections@.len() ==> #[trigger] conn_endpoints_ok(g, c)
}

/// Whether the graph passes validation against this registry.
pub open spec fn graph_valid(g: &GraphDefinition, reg: Seq<crate::registry::NodeInfo>) -> bool {
    types_known(g, reg) && endpoints_declared(g)
}

/// The instance at position `i` of the graph depends on the instance at
/// position `j`: some connection carries data from `j` to `i`.
pub open spec fn dep(g: &GraphDefinition, i: int, j: int) -> bool {
    exists|c: int|
        0 <= c < g.connections@.len() && (#[trigger] g.connections@[c]).from_node@
            == g.nodes@[j].instance_id@ && g.connections@[c].to_node@ == g.nodes@[i].instance_id@
}

/// Whether `p` is a dependency cycle: a non-empty sequence of instance
/// positions, each depending on the next, the last depending on the
/// first.
pub open spec fn is_cycle(g: &GraphDefinition, p: Seq<int>) -> bool {
    &&& p.len() > 0
    &&& forall|k: int| 0 <= k < p.len() ==> 0 <= #[trigger] p[k] < g.nodes@.len()
    &&& forall|k: int| 0 <= k < p.len() - 1 ==> dep(g, #[trigger] p[k], p[k + 1])
    &&& dep(g, p[p.len() - 1], p[0])
}

/// Whether the graph holds any dependency cycle.
pub open spec fn has_cycle(g: &GraphDefinition) -> bool {
    exists|p: Seq<int>| is_cycle(g, p)
}

/// Find the position of the instance with identifier `id`.
#[verifier::loop_isolation(false)]
pub fn find_node(graph: &GraphDefinition, id: &str) -> (r: Option<usize>)
    ensures
        match r {
            Some(k) => k < graph.nodes@.len() && graph.nodes@[k as int].instance_id@ == id@,
            None => !declares(graph, id@),
        },
{
    let mut i: usize = 0;
    while i < graph.nodes.len()
        invariant
            i <= graph.nodes.len(),
            forall|j: int| 0 <= j < i ==> graph.nodes@[j].instance_id@ != id@,
        decreases graph.nodes.len() - i,
    {
        if crate::text::str_eq(graph.nodes[i].instance_id.as_str(), id) {
            return Some(i);
        }
        i = i + 1;
    }
    None
}

/// Validate a graph against the registry: every instance's worker type
/// must be registered, and every connection must join declared
/// instances. The first offence is reported as a bad request naming the
/// offending identifier.
#[verifier::loop_isolation(false)]
pub fn validate_graph(registry: &NodeRegistry, graph: &GraphDefinition) -> (r: Result<
    (),
    AppError,
>)
    ensures
        r is Ok <==> graph_valid(graph, registry@),
        r matches Err(e) ==> e is BadRequest,
        !types_known(graph, registry@) ==> (r matches Err(e) && e matches AppError::BadRequest(m)
            && exists|i: int|
            {
                &&& 0 <= i < graph.nodes@.len()
                &&& !reg_contains(registry@, #[trigger] graph.nodes@[i].node_type_id@)
                &&& forall|j: int|
                    0 <= j < i ==> reg_contains(registry@, #[trigger] graph.nodes@[j].node_type_id@)
                &&& m@ == "Unknown node type: "@ + graph.nodes@[i].node_type_id@
            }),
        types_known(graph, registry@) && !endpoints_declared(graph) ==> (r matches Err(e)
            && e matches AppError::BadRequest(m) && exists|c: int|
            {
                &&& 0 <= c < graph.connections@.len()
                &&& !conn_endpoints_ok(graph, c)
                &&& forall|d: int| 0 <= d < c ==> #[trigger] conn_endpoints_ok(graph, d)
                &&& m@ == "Connection references unknown node: "@ + (if !declares(
                    graph,
                    graph.connections@[c].from_node@,
                ) {
                    graph.connections@[c].from_node@
                } else {
                    graph.connections@[c].to_node@
                })
            }),
{
    let mut i: usize = 0;
    while i < graph.nodes.len()
        invariant
            i <= graph.nodes.len(),
            forall|j: int|
                0 <= j < i ==> reg_contains(registry@, #[trigger] graph.nodes@[j].node_type_id@),
        decreases graph.nodes.len() - i,
    {
        if !registry.contains(graph.nodes[i].node_type_id.as_str()) {
            let msg = String::from_str("Unknown node type: ").concat(
                graph.nodes[i].node_type_id.as_str(),
            );
            return Err(AppError::BadRequest(msg));
        }
        i = i + 1;
    }
    let mut c: usize = 0;
    while c < graph.connections.len()
        invariant
            c <= graph.connections.len(),
            forall|d: int| 0 <= d < c ==> #[trigger] conn_endpoints_ok(graph, d),
        decreases graph.connections.len() - c,
    {
        match find_node(graph, graph.connections[c].from_node.as_str()) {
            Some(_) => {},
            None => {
                proof {
                    assert(!conn_endpoints_ok(graph, c as int));
                }
                let msg = String::from_str("Connection references unknown node: ").concat(
                    graph.connections[c].from_node.as_str(),
                );
                return Err(AppError::BadRequest(msg));
            },
        }
        match find_node(graph, graph.connections[c].to_node.as_str()) {
            Some(_) => {},
            None => {
                proof {
                    assert(!conn_endpoints_ok(graph, c as int));
                }
                let msg = String::from_str("Connection references unknown node: ").concat(
                    graph.connections[c].to_node.as_str(),
                );
                return Err(AppError::BadRequest(msg));
            },
        }
        c = c + 1;
    }
    Ok(())
}

/// With unique instance identifiers, the position of the identifier of
/// the instance at `i` is `i` itself.
pub proof fn lemma_id_index(g: &GraphDefinition, i: int)
    requires
        ids_unique(g),
        0 <= i < g.nodes@.len(),
    ensures
        index_of_id(g, g.nodes@[i].instance_id@) == i,
{
    assert(declares(g, g.nodes@[i].instance_id@));
    let k = index_of_id(g, g.nodes@[i].instance_id@);
    assert(node_ids(g)[k] == g.nodes@[k].instance_id@);
    assert(node_ids(g)[i] == g.nodes@[i].instance_id@);
}

/// With unique instance identifiers, equal identifiers mean equal
/// positions.
pub proof fn lemma_ids_injective(g: &GraphDefinition, a: int, b: int)
    requires
        ids_unique(g),
        0 <= a < g.nodes@.len(),
        0 <= b < g.nodes@.len(),
        g.nodes@[a].instance_id@ == g.nodes@[b].instance_id@,
    ensures
        a == b,
{
    assert(node_ids(g)[a] == g.nodes@[a].instance_id@);
    assert(node_ids(g)[b] == g.nodes@[b].instance_id@);
}

/// Unequal positions carry unequal identifiers.
pub proof fn lemma_ids_injective_contra(g: &GraphDefinition, a: int, b: int)
    requires
        ids_unique(g),
        0 <= a < g.nodes@.len(),
        0 <= b < g.nodes@.len(),
        a != b,
    ensures
        g.nodes@[a].instance_id@ != g.nodes@[b].instance_id@,
{
    assert(node_ids(g)[a] == g.nodes@[a].instance_id@);
    assert(node_ids(g)[b] == g.nodes@[b].instance_id@);
}
/// Whether the instance identifiers of the graph are pairwise
/// distinct, as the data model demands of a well-formed graph.
#[verifier::loop_isolation(false)]
pub fn node_ids_are_unique(graph: &GraphDefinition) -> (r: bool)
    ensures
        r == ids_unique(graph),
{
    let n = graph.nodes.len();
    let mut i: usize = 0;
    while i < n
        invariant
            i <= n,
            forall|a: int, b: int|
                0 <= a < i && a < b < n ==> graph.nodes@[a].instance_id@ != graph.nodes@[
                    b
                ].instance_id@,
        decreases n - i,
    {
        let mut j: usize = i + 1;
        while j < n
            invariant
                i < j <= n,
                forall|b: int|
                    i < b < j ==> graph.nodes@[i as int].instance_id@ != graph.nodes@[
                        b
                    ].instance_id@,
            decreases n - j,
        {
            if crate::text::str_eq(
                graph.nodes[i].instance_id.as_str(),
                graph.nodes[j].instance_id.as_str(),
            ) {
                proof {
                    assert(node_ids(graph)[i as int] == graph.nodes@[i as int].instance_id@);
                    assert(node_ids(graph)[j as int] == graph.nodes@[j as int].instance_id@);
                }
                return false;
            }
            j = j + 1;
        }
        i = i + 1;
    }
    proof {
        assert forall|a: int, b: int|
            0 <= a < node_ids(graph).len() && 0 <= b < node_ids(graph).len() && a != b implies
            node_ids(graph)[a] != node_ids(graph)[b] by {
            assert(node_ids(graph)[a] == graph.nodes@[a].instance_id@);
            assert(node_ids(graph)[b] == graph.nodes@[b].instance_id@);
        }
    }
    true
}

} // verus!

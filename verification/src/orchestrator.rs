//! Orchestration of a graph execution.
//!
//! Executing a graph means validating it, computing a dependency-
//! respecting order, and then calling each instance's worker over the
//! network, one at a time, feeding each worker the outputs its
//! dependencies produced. The network calls themselves are I/O and live
//! at the boundary; this module holds the verified execution engine as a
//! step machine. [`begin_execution`] validates and orders; thereafter
//! the driver alternates [`current_call`] — which says which worker to
//! call next, on which port, with which inputs — with
//! [`apply_success`], until the order is exhausted ([`finish`]) or a
//! call fails ([`apply_failure`], which closes the execution with
//! partial results). A graph whose connections form a cycle is rejected
//! before any call is prepared.

use vstd::prelude::*;
use vstd::string::StringExecFns;

use crate::error::AppError;
use crate::graph::{
    conn_endpoints_ok, declares, dep, endpoints_declared, find_node, graph_valid, has_cycle,
    ids_unique, index_of_id, lemma_id_index, types_known, Connection, GraphDefinition,
};
use crate::order::{build_execution_order, lemma_pos_unique, order_complete, order_view, pos_of};
use crate::registry::{reg_get, NodeRegistry};
use crate::strmap::StrMap;
use crate::value::{DataValue, ValueModel};

verus! {

/// A request to execute a graph: the graph plus an optional
/// client-supplied execution identifier.
#[derive(Debug)]
pub struct GraphExecutionRequest {
    /// Execution identifier; generated when absent.
    pub execution_id: Option<String>,
    /// The graph to execute.
    pub graph: GraphDefinition,
}

/// Overall status of a graph execution.
#[derive(Debug, PartialEq, Eq, Structural)]
pub enum ExecutionStatus {
    /// Every instance completed.
    Success,
    /// An instance failed; execution stopped there.
    Failed,
    /// Reserved for asynchronous execution; never produced by the
    /// synchronous engine.
    InProgress,
}

/// Model of a per-instance result record.
pub struct NodeResultModel {
    pub instance_id: Seq<char>,
    pub status: Seq<char>,
    pub outputs: Option<Map<Seq<char>, ValueModel>>,
    pub error: Option<Seq<char>>,
}

/// The recorded outcome of one instance.
#[derive(Debug)]
pub struct NodeExecutionResult {
    /// The instance this record belongs to.
    pub instance_id: String,
    /// `"success"` or `"failed"`.
    pub status: String,
    /// The outputs the worker returned, when it succeeded.
    pub outputs: Option<StrMap<DataValue>>,
    /// The failure text, when it failed.
    pub error: Option<String>,
}

impl View for NodeExecutionResult {
    type V = NodeResultModel;

    open spec fn view(&self) -> NodeResultModel {
        NodeResultModel {
            instance_id: self.instance_id@,
            status: self.status@,
            outputs: match &self.outputs {
                Some(m) => Some(m@),
                None => None,
            },
            error: match &self.error {
                Some(e) => Some(e@),
                None => None,
            },
        }
    }
}

/// The response of a finished execution: overall status and one result
/// record per instance that ran.
#[derive(Debug)]
pub struct GraphExecutionResponse {
    /// The execution's identifier.
    pub execution_id: String,
    /// Overall outcome.
    pub status: ExecutionStatus,
    /// One record per instance that ran, keyed by instance identifier.
    pub node_results: StrMap<NodeExecutionResult>,
    /// The failure text when the execution failed.
    pub error: Option<String>,
}

/// Everything the boundary needs to call one worker: which instance,
/// on which port, with which inputs, and an optional directory
/// override drawn from the instance's settings.
#[derive(Debug)]
pub struct WorkerCall {
    /// The instance being executed.
    pub instance_id: String,
    /// The port its worker listens on.
    pub port: u16,
    /// The gathered inputs, keyed by input handle.
    pub inputs: StrMap<DataValue>,
    /// Directory override from the `target_directory` setting, when that
    /// setting holds text.
    pub target_directory: Option<String>,
}

/// The state of one execution in progress: the validated graph, the
/// computed order, how far execution has come, and the results so far.
#[derive(Debug)]
pub struct ExecutionState {
    /// The execution's identifier.
    pub execution_id: String,
    /// The validated graph.
    pub graph: GraphDefinition,
    /// The computed execution order, one instance identifier each.
    pub order: Vec<String>,
    /// How many instances of the order have completed.
    pub next: usize,
    /// The result records of the completed instances.
    pub node_results: StrMap<NodeExecutionResult>,
}

/// What holds of an execution in progress: the order is a complete
/// dependency-respecting order of the graph, and the results hold one
/// successful record for exactly the instances before `next`.
pub open spec fn state_wf(s: &ExecutionState) -> bool {
    &&& ids_unique(&s.graph)
    &&& endpoints_declared(&s.graph)
    &&& order_complete(&s.graph, order_view(s.order@))
    &&& s.next <= s.order@.len()
    &&& forall|k: int|
        0 <= k < s.next ==> {
            let id = #[trigger] order_view(s.order@)[k];
            &&& s.node_results@.contains_key(id)
            &&& s.node_results@[id].status == "success"@
            &&& s.node_results@[id].outputs is Some
        }
    &&& forall|id: Seq<char>|
        s.node_results@.contains_key(id) ==> exists|k: int|
            0 <= k < s.next && order_view(s.order@)[k] == id
}

/// The inputs an instance receives: walking the connections in order,
/// every connection into the instance whose source has recorded an
/// output under the named handle contributes that value under the
/// connection's destination handle; later connections override earlier
/// ones on the same handle, and a missing handle is silently omitted.
pub open spec fn gathered_inputs(
    conns: Seq<Connection>,
    inst: Seq<char>,
    results: Map<Seq<char>, NodeResultModel>,
) -> Map<Seq<char>, ValueModel>
    decreases conns.len(),
{
    if conns.len() == 0 {
        Map::empty()
    } else {
        let m = gathered_inputs(conns.drop_last(), inst, results);
        let c = conns.last();
        if c.to_node@ == inst && results.contains_key(c.from_node@) {
            match results[c.from_node@].outputs {
                Some(outs) => if outs.contains_key(c.from_handle@) {
                    m.insert(c.to_handle@, outs[c.from_handle@])
                } else {
                    m
                },
                None => m,
            }
        } else {
            m
        }
    }
}

/// Relies on `uuid::Uuid::new_v4` and its `Display` rendering: a fresh
/// random identifier. Nothing can be promised of the value.
#[verifier::external_body]
fn new_execution_id() -> String {
    uuid::Uuid::new_v4().to_string()
}

/// Start an execution: validate the graph against the registry, compute
/// the execution order, and return the initial state. A graph that
/// fails validation, or whose connections form a cycle, is rejected
/// here, before any worker call is prepared.
pub fn begin_execution(registry: &NodeRegistry, request: GraphExecutionRequest) -> (r: Result<
    ExecutionState,
    AppError,
>)
    requires
        ids_unique(&request.graph),
    ensures
        r is Ok <==> graph_valid(&request.graph, registry@) && !has_cycle(&request.graph),
        r matches Ok(state) ==> ({
            &&& state_wf(&state)
            &&& state.graph == request.graph
            &&& state.next == 0
            &&& state.node_results@ == Map::<Seq<char>, NodeResultModel>::empty()
            &&& (request.execution_id matches Some(id) ==> state.execution_id == id)
        }),
        r matches Err(e) ==> e is BadRequest,
        !types_known(&request.graph, registry@) ==> (r matches Err(e)
            && e matches AppError::BadRequest(m) && exists|i: int|
            {
                &&& 0 <= i < request.graph.nodes@.len()
                &&& !crate::registry::reg_contains(
                    registry@,
                    #[trigger] request.graph.nodes@[i].node_type_id@,
                )
                &&& forall|j: int|
                    0 <= j < i ==> crate::registry::reg_contains(
                        registry@,
                        #[trigger] request.graph.nodes@[j].node_type_id@,
                    )
                &&& m@ == "Unknown node type: "@ + request.graph.nodes@[i].node_type_id@
            }),
        types_known(&request.graph, registry@) && !endpoints_declared(&request.graph) ==> (
        r matches Err(e) && e matches AppError::BadRequest(m) && exists|c: int|
            {
                &&& 0 <= c < request.graph.connections@.len()
                &&& !conn_endpoints_ok(&request.graph, c)
                &&& forall|d: int| 0 <= d < c ==> #[trigger] conn_endpoints_ok(&request.graph, d)
                &&& m@ == "Connection references unknown node: "@ + (if !declares(
                    &request.graph,
                    request.graph.connections@[c].from_node@,
                ) {
                    request.graph.connections@[c].from_node@
                } else {
                    request.graph.connections@[c].to_node@
                })
            }),
        graph_valid(&request.graph, registry@) && has_cycle(&request.graph) ==> (r matches Err(e)
            && e matches AppError::BadRequest(m) && m@ == "Circular dependency detected in graph"@),
{
    let execution_id = match request.execution_id {
        Some(id) => id,
        None => new_execution_id(),
    };
    match crate::graph::validate_graph(registry, &request.graph) {
        Ok(()) => {},
        Err(e) => {
            return Err(e);
        },
    }
    let order = match build_execution_order(&request.graph) {
        Ok(o) => o,
        Err(e) => {
            return Err(e);
        },
    };
    Ok(
        ExecutionState {
            execution_id,
            graph: request.graph,
            order,
            next: 0,
            node_results: StrMap::new(),
        },
    )
}

/// The next worker call of this execution, or `None` when every
/// instance has completed. The call's inputs are gathered from the
/// connections into the instance and the outputs already recorded; its
/// port comes from the registry entry of the instance's worker type.
#[verifier::loop_isolation(false)]
pub fn current_call(state: &ExecutionState, registry: &NodeRegistry) -> (r: Result<
    Option<WorkerCall>,
    AppError,
>)
    requires
        state_wf(state),
        types_known(&state.graph, registry@),
    ensures
        r is Ok,
        state.next == state.order@.len() ==> (r matches Ok(x) && x is None),
        state.next < state.order@.len() ==> (r matches Ok(x) && x matches Some(call) && ({
            let inst = state.order@[state.next as int]@;
            let gidx = index_of_id(&state.graph, inst);
            let settings = state.graph.nodes@[gidx].input_values@;
            &&& call.instance_id@ == inst
            &&& call.port == reg_get(registry@, state.graph.nodes@[gidx].node_type_id@).port
            &&& call.inputs@ == gathered_inputs(
                state.graph.connections@,
                inst,
                state.node_results@,
            )
            &&& (if settings.contains_key("target_directory"@) && (settings["target_directory"@]
                is Text) {
                call.target_directory matches Some(td) && td@ == settings["target_directory"@]->Text_0
            } else {
                call.target_directory is None
            })
        })),
{
    if state.next >= state.order.len() {
        return Ok(None);
    }
    let ghost oids = order_view(state.order@);
    let inst = &state.order[state.next];
    proof {
        assert(oids[state.next as int] == inst@);
        assert(declares(&state.graph, inst@));
    }
    let gidx = match find_node(&state.graph, inst.as_str()) {
        Some(x) => x,
        None => {
            vstd::pervasive::unreached()
        },
    };
    proof {
        lemma_id_index(&state.graph, gidx as int);
        assert(index_of_id(&state.graph, inst@) == gidx as int);
    }
    let node = &state.graph.nodes[gidx];
    let info = match registry.get_node(node.node_type_id.as_str()) {
        Some(i) => i,
        None => {
            vstd::pervasive::unreached()
        },
    };
    let mut inputs: StrMap<DataValue> = StrMap::new();
    let mut c: usize = 0;
    while c < state.graph.connections.len()
        invariant
            c <= state.graph.connections@.len(),
            inputs@ == gathered_inputs(
                state.graph.connections@.subrange(0, c as int),
                inst@,
                state.node_results@,
            ),
        decreases state.graph.connections@.len() - c,
    {
        let ghost pre = inputs@;
        let conn = &state.graph.connections[c];
        if crate::text::str_eq(conn.to_node.as_str(), inst.as_str()) {
            match state.node_results.get(conn.from_node.as_str()) {
                Some(res) => {
                    match &res.outputs {
                        Some(outs) => {
                            match outs.get(conn.from_handle.as_str()) {
                                Some(v) => {
                                    inputs.insert(conn.to_handle.clone(), v.duplicate());
                                },
                                None => {
                                    // The source ran but produced no output
                                    // under this handle: the input is
                                    // silently omitted.
                                },
                            }
                        },
                        None => {},
                    }
                },
                None => {
                    // Unreachable under a dependency-respecting order: the
                    // source of every connection into this instance has
                    // already run. Kept as the engine's answer should a
                    // caller ever get here with an inconsistent state.
                    proof {
                        assert(conn_endpoints_ok(&state.graph, c as int));
                        let fx = index_of_id(&state.graph, conn.from_node@);
                        let tx = index_of_id(&state.graph, conn.to_node@);
                        assert(dep(&state.graph, tx, fx));
                        lemma_pos_unique(oids, state.next as int);
                        assert(pos_of(oids, conn.to_node@) == state.next as int);
                        assert(pos_of(oids, conn.from_node@) < state.next as int);
                        let kf = pos_of(oids, conn.from_node@);
                        assert(oids.contains(state.graph.nodes@[fx].instance_id@));
                        let kw = choose|kw: int| 0 <= kw < oids.len() && oids[kw] == conn.from_node@;
                        lemma_pos_unique(oids, kw);
                        assert(oids[kf] == conn.from_node@);
                        assert(state.node_results@.contains_key(oids[kf]));
                        assert(false);
                    }
                    let msg = String::from_str("Node '").concat(conn.from_node.as_str()).concat(
                        "' has not executed yet, but is a dependency of '",
                    ).concat(inst.as_str()).concat("'");
                    return Err(AppError::Internal(msg));
                },
            }
        }
        proof {
            let sub = state.graph.connections@.subrange(0, c as int + 1);
            assert(sub.drop_last() =~= state.graph.connections@.subrange(0, c as int));
            assert(sub.last() == state.graph.connections@[c as int]);
        }
        c = c + 1;
    }
    proof {
        assert(state.graph.connections@.subrange(0, state.graph.connections@.len() as int)
            =~= state.graph.connections@);
    }
    let target_directory = match node.input_values.get("target_directory") {
        Some(v) => match v.as_text() {
            Some(s) => Some(s.clone()),
            None => None,
        },
        None => None,
    };
    Ok(
        Some(
            WorkerCall {
                instance_id: inst.clone(),
                port: info.port,
                inputs,
                target_directory,
            },
        ),
    )
}

/// Record a successful worker call: the outputs become the instance's
/// result record, available to the instances that depend on it, and
/// execution advances to the next instance in the order.
pub fn apply_success(state: &mut ExecutionState, outputs: StrMap<DataValue>)
    requires
        state_wf(old(state)),
        old(state).next < old(state).order@.len(),
    ensures
        state_wf(final(state)),
        final(state).execution_id == old(state).execution_id,
        final(state).graph == old(state).graph,
        final(state).order == old(state).order,
        final(state).next == old(state).next + 1,
        final(state).node_results@ == old(state).node_results@.insert(
            old(state).order@[old(state).next as int]@,
            (NodeResultModel {
                instance_id: old(state).order@[old(state).next as int]@,
                status: "success"@,
                outputs: Some(outputs@),
                error: None,
            }),
        ),
{
    let ghost oids = order_view(old(state).order@);
    let inst = state.order[state.next].clone();
    let result = NodeExecutionResult {
        instance_id: inst.clone(),
        status: String::from_str("success"),
        outputs: Some(outputs),
        error: None,
    };
    state.node_results.insert(inst, result);
    proof {
        assert(state.next < state.order.len());
    }
    state.next = state.next + 1;
    proof {
        let s = &*state;
        let id_new = oids[s.next - 1];
        assert forall|k: int| 0 <= k < s.next implies {
            let id = #[trigger] order_view(s.order@)[k];
            &&& s.node_results@.contains_key(id)
            &&& s.node_results@[id].status == "success"@
            &&& s.node_results@[id].outputs is Some
        } by {
            if k < s.next - 1 {
                assert(oids[k] == order_view(s.order@)[k]);
            }
        }
        assert forall|id: Seq<char>| s.node_results@.contains_key(id) implies exists|k: int|
            0 <= k < s.next && order_view(s.order@)[k] == id by {
            if id != id_new {
                assert(old(state).node_results@.contains_key(id));
            }
        }
    }
}

/// Close the execution after a failed worker call: the failing
/// instance is recorded as failed with the error text, the results of
/// the already completed instances are kept, the pending instances get
/// no record, and the overall status is `Failed`.
pub fn apply_failure(state: ExecutionState, error_text: String) -> (r: GraphExecutionResponse)
    requires
        state_wf(&state),
        state.next < state.order@.len(),
    ensures
        r.execution_id == state.execution_id,
        r.status == ExecutionStatus::Failed,
        r.error matches Some(e) && e@ == error_text@,
        r.node_results@ == state.node_results@.insert(
            state.order@[state.next as int]@,
            (NodeResultModel {
                instance_id: state.order@[state.next as int]@,
                status: "failed"@,
                outputs: None,
                error: Some(error_text@),
            }),
        ),
{
    let ExecutionState { execution_id, graph: _, order, next, mut node_results } = state;
    let inst = order[next].clone();
    let failed = NodeExecutionResult {
        instance_id: inst.clone(),
        status: String::from_str("failed"),
        outputs: None,
        error: Some(error_text.clone()),
    };
    node_results.insert(inst, failed);
    GraphExecutionResponse {
        execution_id,
        status: ExecutionStatus::Failed,
        node_results,
        error: Some(error_text),
    }
}

/// Close the execution after every instance completed: overall status
/// `Success`, one result record per instance, no error.
pub fn finish(state: ExecutionState) -> (r: GraphExecutionResponse)
    requires
        state_wf(&state),
        state.next == state.order@.len(),
    ensures
        r.execution_id == state.execution_id,
        r.status == ExecutionStatus::Success,
        r.error is None,
        r.node_results@ == state.node_results@,
{
    let ExecutionState { execution_id, graph: _, order: _, next: _, node_results } = state;
    GraphExecutionResponse {
        execution_id,
        status: ExecutionStatus::Success,
        node_results,
        error: None,
    }
}

} // verus!

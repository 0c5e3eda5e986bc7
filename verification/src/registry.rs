//! The node registry: an in-memory directory of all known worker types.
//!
//! Built once by discovery at startup and read-heavy afterwards. Entries
//! are keyed by the worker's identifier; a duplicate registration is
//! rejected and leaves the registry unchanged.

use vstd::prelude::*;
use vstd::string::StringExecFns;

use crate::config::NodeConfig;
use crate::text::str_eq;

verus! {

/// A registered worker type: its descriptor plus runtime bookkeeping.
#[derive(Debug, Clone)]
pub struct NodeInfo {
    /// Unique identifier, equal to the descriptor's `node_id_hash`.
    pub node_id: String,
    /// The worker's full descriptor.
    pub config: NodeConfig,
    /// Filesystem path of the worker's directory.
    pub path: String,
    /// Network port assigned to this worker.
    pub port: u16,
    /// Advisory flag: whether the worker is believed to be running.
    pub is_running: bool,
}

/// The identifiers of a sequence of entries, in order.
pub open spec fn reg_ids(s: Seq<NodeInfo>) -> Seq<Seq<char>> {
    s.map_values(|n: NodeInfo| n.node_id@)
}

/// Whether some entry carries the identifier `id`.
pub open spec fn reg_contains(s: Seq<NodeInfo>, id: Seq<char>) -> bool {
    exists|i: int| 0 <= i < s.len() && s[i].node_id@ == id
}

/// The position of the entry carrying `id`, meaningful when one exists.
pub open spec fn reg_index_of(s: Seq<NodeInfo>, id: Seq<char>) -> int {
    choose|i: int| 0 <= i < s.len() && s[i].node_id@ == id
}

/// The entry carrying `id`, meaningful when one exists.
pub open spec fn reg_get(s: Seq<NodeInfo>, id: Seq<char>) -> NodeInfo {
    s[reg_index_of(s, id)]
}

/// Registry of all discovered worker types, keyed by identifier.
#[derive(Debug)]
pub struct NodeRegistry {
    nodes: Vec<NodeInfo>,
}

impl View for NodeRegistry {
    type V = Seq<NodeInfo>;

    closed spec fn view(&self) -> Seq<NodeInfo> {
        self.nodes@
    }
}

impl NodeRegistry {
    #[verifier::type_invariant]
    spec fn inv(self) -> bool {
        reg_ids(self.nodes@).no_duplicates()
    }

    /// An empty registry.
    pub fn new() -> (r: NodeRegistry)
        ensures
            r@ == Seq::<NodeInfo>::empty(),
    {
        NodeRegistry { nodes: Vec::new() }
    }

    /// Register a new entry. Fails, and leaves the registry unchanged,
    /// when an entry with the same identifier already exists.
    #[verifier::loop_isolation(false)]
    pub fn register(&mut self, node_info: NodeInfo) -> (r: Result<(), String>)
        ensures
            r is Ok <==> !reg_contains(old(self)@, node_info.node_id@),
            r is Ok ==> final(self)@ == old(self)@.push(node_info),
            r is Err ==> final(self)@ == old(self)@ && r->Err_0@ == "Node '"@ + node_info.node_id@
                + "' already registered"@,
    {
        proof {
            use_type_invariant(&*self);
        }
        let ghost s0 = self.nodes@;
        if self.contains(node_info.node_id.as_str()) {
            let msg = String::from_str("Node '").concat(node_info.node_id.as_str()).concat(
                "' already registered",
            );
            return Err(msg);
        }
        let mut nodes: Vec<NodeInfo> = Vec::new();
        core::mem::swap(&mut nodes, &mut self.nodes);
        nodes.push(node_info);
        proof {
            assert(nodes@.drop_last() =~= s0);
            assert(reg_ids(nodes@) =~= reg_ids(s0).push(nodes@.last().node_id@));
            assert forall|j: int| 0 <= j < s0.len() implies reg_ids(s0)[j] != nodes@.last().node_id@
                by {
                assert(s0[j].node_id@ != node_info.node_id@);
            }
        }
        core::mem::swap(&mut nodes, &mut self.nodes);
        Ok(())
    }

    /// Look up an entry by identifier.
    #[verifier::loop_isolation(false)]
    pub fn get_node(&self, node_id: &str) -> (r: Option<&NodeInfo>)
        ensures
            match r {
                Some(info) => reg_contains(self@, node_id@) && *info == reg_get(self@, node_id@)
                    && info.node_id@ == node_id@,
                None => !reg_contains(self@, node_id@),
            },
    {
        proof {
            use_type_invariant(self);
        }
        let mut i: usize = 0;
        while i < self.nodes.len()
            invariant
                i <= self.nodes.len(),
                forall|j: int| 0 <= j < i ==> self.nodes@[j].node_id@ != node_id@,
            decreases self.nodes.len() - i,
        {
            if str_eq(self.nodes[i].node_id.as_str(), node_id) {
                proof {
                    let k = reg_index_of(self@, node_id@);
                    assert(reg_ids(self@)[k] == self@[k].node_id@);
                    assert(reg_ids(self@)[i as int] == self@[i as int].node_id@);
                }
                return Some(&self.nodes[i]);
            }
            i = i + 1;
        }
        None
    }

    /// All registered entries, in registration order.
    pub fn get_all_nodes(&self) -> (r: &Vec<NodeInfo>)
        ensures
            r@ == self@,
    {
        &self.nodes
    }

    /// The number of registered entries.
    pub fn count(&self) -> (r: usize)
        ensures
            r == self@.len(),
    {
        self.nodes.len()
    }

    /// Whether an entry with this identifier exists.
    pub fn contains(&self, node_id: &str) -> (r: bool)
        ensures
            r == reg_contains(self@, node_id@),
    {
        match self.get_node(node_id) {
            Some(_) => true,
            None => false,
        }
    }

    /// Set the advisory running flag of an entry in place; a no-op when
    /// the identifier is unknown.
    #[verifier::loop_isolation(false)]
    pub fn set_node_running(&mut self, node_id: &str, is_running: bool)
        ensures
            !reg_contains(old(self)@, node_id@) ==> final(self)@ == old(self)@,
            reg_contains(old(self)@, node_id@) ==> final(self)@ == old(self)@.update(
                reg_index_of(old(self)@, node_id@),
                (NodeInfo { is_running, ..old(self)@[reg_index_of(old(self)@, node_id@)] }),
            ),
    {
        proof {
            use_type_invariant(&*self);
        }
        let ghost s0 = self.nodes@;
        let mut nodes: Vec<NodeInfo> = Vec::new();
        core::mem::swap(&mut nodes, &mut self.nodes);
        let mut i: usize = 0;
        while i < nodes.len()
            invariant
                i <= nodes.len(),
                nodes@ == s0,
                forall|j: int| 0 <= j < i ==> nodes@[j].node_id@ != node_id@,
            decreases nodes.len() - i,
        {
            if str_eq(nodes[i].node_id.as_str(), node_id) {
                nodes[i].is_running = is_running;
                proof {
                    assert(reg_ids(nodes@) =~= reg_ids(s0));
                    let k = reg_index_of(s0, node_id@);
                    assert(reg_ids(s0)[k] == s0[k].node_id@);
                    assert(reg_ids(s0)[i as int] == s0[i as int].node_id@);
                    assert(nodes@ =~= s0.update(
                        reg_index_of(s0, node_id@),
                        (NodeInfo { is_running, ..s0[reg_index_of(s0, node_id@)] }),
                    ));
                }
                core::mem::swap(&mut nodes, &mut self.nodes);
                return ;
            }
            i = i + 1;
        }
        core::mem::swap(&mut nodes, &mut self.nodes);
    }
}

/// Response body for the registry listing endpoint.
#[derive(Debug, Clone)]
pub struct NodeRegistryResponse {
    /// Every registered entry.
    pub nodes: Vec<NodeInfo>,
}

/// The system-wide health verdict over the per-node health-check
/// outcomes: `"healthy"` when every checked node answered healthy,
/// `"degraded"` otherwise.
#[verifier::loop_isolation(false)]
pub fn overall_status(node_healthy: &Vec<bool>) -> (r: String)
    ensures
        (forall|i: int| 0 <= i < node_healthy@.len() ==> #[trigger] node_healthy@[i]) ==> r@
            == "healthy"@,
        (exists|i: int| 0 <= i < node_healthy@.len() && !(#[trigger] node_healthy@[i])) ==> r@
            == "degraded"@,
{
    let mut i: usize = 0;
    while i < node_healthy.len()
        invariant
            i <= node_healthy@.len(),
            forall|j: int| 0 <= j < i ==> #[trigger] node_healthy@[j],
        decreases node_healthy@.len() - i,
    {
        if !node_healthy[i] {
            return String::from_str("degraded");
        }
        i = i + 1;
    }
    String::from_str("healthy")
}

} // verus!

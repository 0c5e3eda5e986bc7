//! Node discovery: building a registry from loaded worker descriptors.
//!
//! Discovery scans a root directory for worker subdirectories (depth
//! exactly one), loads the descriptor of each, and populates a registry,
//! assigning every successfully loaded worker the next sequential port.
//! Reading directories and descriptor files is I/O and lives at the
//! boundary; the assignment and registration policy is here, verified:
//! ports start at the base port and advance once per loaded descriptor,
//! in enumeration order, and a duplicate identifier is skipped without
//! aborting discovery of the remaining workers.

use vstd::prelude::*;

use crate::config::NodeConfig;
use crate::registry::{reg_contains, NodeInfo, NodeRegistry};

verus! {

/// Discovery policy: the root directory scanned for workers and the
/// first port handed out.
#[derive(Debug, Clone)]
pub struct DiscoveryService {
    /// Root directory that holds one subdirectory per worker.
    pub nodes_dir: String,
    /// First port assigned to a discovered worker.
    pub base_port: u16,
}

/// The registry entries that result from registering `entries` in order,
/// where `entries` holds each loaded descriptor with its directory path.
/// The entry at position `i` gets port `base + i`; an entry whose
/// identifier was already taken is skipped.
pub open spec fn assembled(base: u16, entries: Seq<(String, NodeConfig)>) -> Seq<NodeInfo>
    decreases entries.len(),
{
    if entries.len() == 0 {
        Seq::empty()
    } else {
        let prev = assembled(base, entries.drop_last());
        let e = entries.last();
        if reg_contains(prev, e.1.node_id_hash@) {
            prev
        } else {
            prev.push(
                NodeInfo {
                    node_id: e.1.node_id_hash,
                    config: e.1,
                    path: e.0,
                    port: (base + entries.len() - 1) as u16,
                    is_running: false,
                },
            )
        }
    }
}

impl DiscoveryService {
    /// A discovery service over the given root directory. Ports start
    /// one above the engine's own port.
    pub fn new(nodes_dir: &str) -> (r: DiscoveryService)
        ensures
            r.nodes_dir@ == nodes_dir@,
            r.base_port == 3001u16,
    {
        DiscoveryService { nodes_dir: nodes_dir.to_owned(), base_port: 3001 }
    }

    /// Build a registry from the descriptors loaded out of the worker
    /// directories, given in enumeration order. Each descriptor is
    /// assigned the next sequential port counting from the base port;
    /// a duplicate identifier is skipped and the rest go on.
    #[verifier::loop_isolation(false)]
    pub fn assemble_registry(&self, loaded: Vec<(String, NodeConfig)>) -> (r: NodeRegistry)
        requires
            self.base_port + loaded@.len() <= u16::MAX,
        ensures
            r@ == assembled(self.base_port, loaded@),
    {
        let ghost all = loaded@;
        let mut registry = NodeRegistry::new();
        let mut remaining = loaded;
        let mut idx: usize = 0;
        while remaining.len() > 0
            invariant
                idx + remaining@.len() == all.len(),
                remaining@ == all.subrange(idx as int, all.len() as int),
                registry@ == assembled(self.base_port, all.subrange(0, idx as int)),
            decreases remaining@.len(),
        {
            let (path, config) = remaining.remove(0);
            let port = self.base_port + (idx as u16);
            let node_id = config.node_id_hash.clone();
            let info = NodeInfo { node_id, config, path, port, is_running: false };
            let ghost before = registry@;
            // A duplicate identifier is reported by the registry; discovery
            // skips it and carries on, as with any other per-directory
            // failure.
            match registry.register(info) {
                Ok(_) => {},
                Err(_) => {},
            }
            idx = idx + 1;
            proof {
                let sub = all.subrange(0, idx as int);
                assert(sub.drop_last() =~= all.subrange(0, idx - 1));
                assert(sub.last() == all[idx - 1]);
                assert(remaining@ =~= all.subrange(idx as int, all.len() as int));
            }
        }
        proof {
            assert(all.subrange(0, all.len() as int) =~= all);
        }
        registry
    }
}

} // verus!

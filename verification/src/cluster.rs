//! Placement across cluster nodes: which node takes the next VM.

use vstd::prelude::*;

verus! {

/// One node as the placement decision sees it.
#[derive(Debug, Clone)]
pub struct NodeState {
    pub id: String,
    pub available_resources: u64,
    pub current_load: u64,
}

/// Mathematical image of a [`NodeState`].
#[verifier::ext_equal]
pub ghost struct NodeV {
    pub id: Seq<char>,
    pub available_resources: u64,
    pub current_load: u64,
}

impl View for NodeState {
    type V = NodeV;

    open spec fn view(&self) -> NodeV {
        NodeV {
            id: self.id@,
            available_resources: self.available_resources,
            current_load: self.current_load,
        }
    }
}

/// The views of the node table.
pub open spec fn nodes_view(s: Seq<NodeState>) -> Seq<NodeV> {
    s.map_values(|n: NodeState| n@)
}

/// Whether a node can take a VM with these requirements.
pub open spec fn node_fits(n: NodeV, requirements: u64) -> bool {
    n.available_resources >= requirements
}

/// Tracks the cluster's nodes and places VMs on them.
#[derive(Debug)]
pub struct ClusterManager {
    pub nodes: Vec<NodeState>,
}

impl ClusterManager {
    /// The node a VM with the given requirements should go to: among the
    /// nodes with room, one of least current load; nothing when no node
    /// has room. The placement decides; starting the VM on the chosen
    /// node is the embedding layer's work.
    pub fn select_target_node(&self, requirements: u64) -> (r: Option<usize>)
        ensures
            ({
                let nv = nodes_view(self.nodes@);
                match r {
                    Some(i) => i < nv.len() && node_fits(nv[i as int], requirements) && forall|
                        j: int,
                    |
                        0 <= j < nv.len() && node_fits(#[trigger] nv[j], requirements) ==> nv[i
                            as int].current_load <= nv[j].current_load,
                    None => forall|j: int|
                        0 <= j < nv.len() ==> !node_fits(#[trigger] nv[j], requirements),
                }
            }),
    {
        let ghost nv = nodes_view(self.nodes@);
        let n = self.nodes.len();
        let mut best: Option<usize> = None;
        let mut i: usize = 0;
        while i < n
            invariant
                n == self.nodes@.len(),
                i <= n,
                nv == nodes_view(self.nodes@),
                match best {
                    Some(b) => b < i && node_fits(nv[b as int], requirements) && forall|j: int|
                        0 <= j < i && node_fits(#[trigger] nv[j], requirements) ==> nv[b
                            as int].current_load <= nv[j].current_load,
                    None => forall|j: int|
                        0 <= j < i ==> !node_fits(#[trigger] nv[j], requirements),
                },
            decreases n - i,
        {
            proof {
                assert(nv[i as int] == self.nodes@[i as int]@);
            }
            if self.nodes[i].available_resources >= requirements {
                best = match best {
                    None => Some(i),
                    Some(b) => {
                        if self.nodes[i].current_load < self.nodes[b].current_load {
                            Some(i)
                        } else {
                            Some(b)
                        }
                    },
                };
            }
            i = i + 1;
        }
        best
    }
}

} // verus!

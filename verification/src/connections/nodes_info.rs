use vstd::prelude::*;
use crate::operations::utils::util::{new_uuid_string, uuid_v4_text};

verus! {

/// A node of the cluster: its id and the resources it offers.
pub struct NodeInfo {
    pub id: String,
    /// Hardware threads available.
    pub av_threads: usize,
    /// Memory available, in kilobytes.
    pub av_ram: u64,
}

impl NodeInfo {
    /// A node with a fresh random id and the given resources.
    pub fn new(av_threads: usize, av_ram: u64) -> (node: NodeInfo)
        ensures
            uuid_v4_text(node.id@),
            node.av_threads == av_threads,
            node.av_ram == av_ram,
    {
        NodeInfo { id: new_uuid_string(), av_threads, av_ram }
    }

    /// A copy of the node.
    pub fn duplicate(&self) -> (copy: NodeInfo)
        ensures
            copy == *self,
    {
        NodeInfo { id: self.id.clone(), av_threads: self.av_threads, av_ram: self.av_ram }
    }

    /// The same node with fresh resource figures.
    pub fn update_current_node_info(&self, av_threads: usize, av_ram: u64) -> (node: NodeInfo)
        ensures
            node.id == self.id,
            node.av_threads == av_threads,
            node.av_ram == av_ram,
    {
        NodeInfo { id: self.id.clone(), av_threads, av_ram }
    }
}

} // verus!

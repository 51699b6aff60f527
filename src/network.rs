//! The registry of known nodes, by node id.
use vstd::prelude::*;

use crate::file::{copy_string, digests_equal};
use crate::identity::NodeId;
use crate::registry::{keyed_map, keys_distinct, lemma_keyed_index, lemma_keyed_len, lemma_keyed_push, lemma_keyed_remove};

verus! {

/// What is known of a node.
#[derive(Debug, Clone)]
pub struct PeerInfo {
    pub node_id: NodeId,
    pub address: String,
    pub last_seen: u64,
    pub capabilities: Vec<String>,
}

impl PeerInfo {
    /// The same record: equal fields, and equal lists of capabilities.
    pub open spec fn equiv(&self, other: PeerInfo) -> bool {
        &&& self.node_id == other.node_id
        &&& self.address == other.address
        &&& self.last_seen == other.last_seen
        &&& self.capabilities@ == other.capabilities@
    }

    /// A copy of the record.
    pub fn duplicate(&self) -> (r: PeerInfo)
        ensures
            r.equiv(*self),
    {
        let mut capabilities: Vec<String> = Vec::new();
        let mut i: usize = 0;
        while i < self.capabilities.len()
            invariant
                0 <= i <= self.capabilities@.len(),
                capabilities@ == self.capabilities@.take(i as int),
            decreases self.capabilities@.len() - i,
        {
            capabilities.push(copy_string(&self.capabilities[i]));
            i = i + 1;
            assert(capabilities@ =~= self.capabilities@.take(i as int));
        }
        assert(capabilities@ =~= self.capabilities@);
        PeerInfo {
            node_id: self.node_id,
            address: copy_string(&self.address),
            last_seen: self.last_seen,
            capabilities,
        }
    }
}

/// A node's key: the bytes of its id.
pub open spec fn node_key() -> spec_fn(PeerInfo) -> Seq<u8> {
    |p: PeerInfo| p.node_id.0@
}

/// Known nodes, at most one record per node id.
pub struct NetworkState {
    peers: Vec<PeerInfo>,
}

impl NetworkState {
    /// Each known node's record, by the bytes of its id.
    pub closed spec fn view(&self) -> Map<Seq<u8>, PeerInfo> {
        keyed_map(self.peers@, node_key())
    }

    pub closed spec fn wf(&self) -> bool {
        keys_distinct(self.peers@, node_key())
    }

    /// No node known.
    pub fn new() -> (r: NetworkState)
        ensures
            r.wf(),
            r.view().is_empty(),
    {
        let r = NetworkState { peers: Vec::new() };
        assert(r.view() =~= Map::empty());
        r
    }

    fn find(&self, node_id: &NodeId) -> (r: Option<usize>)
        requires
            self.wf(),
        ensures
            match r {
                Some(i) => i < self.peers@.len() && self.peers@[i as int].node_id.0@ == node_id.0@,
                None => !self.view().contains_key(node_id.0@),
            },
    {
        let mut i: usize = 0;
        while i < self.peers.len()
            invariant
                self.wf(),
                0 <= i <= self.peers@.len(),
                forall|j: int| 0 <= j < i ==> self.peers@[j].node_id.0@ != node_id.0@,
            decreases self.peers@.len() - i,
        {
            if digests_equal(&self.peers[i].node_id.0, &node_id.0) {
                return Some(i);
            }
            i = i + 1;
        }
        None
    }

    /// Records `peer`, replacing any record of the same node.
    pub fn add_peer(&mut self, peer: PeerInfo)
        requires
            old(self).wf(),
        ensures
            final(self).wf(),
            final(self).view() == old(self).view().insert(peer.node_id.0@, peer),
    {
        match self.find(&peer.node_id) {
            Some(i) => {
                proof {
                    lemma_keyed_remove(self.peers@, node_key(), i as int);
                }
                self.peers.remove(i);
            },
            None => {},
        }
        let ghost s0 = self.peers@;
        proof {
            lemma_keyed_push(s0, node_key(), peer);
        }
        self.peers.push(peer);
        proof {
            assert(self.peers@ == s0.push(peer));
        }
    }

    /// Forgets the node `node_id`.
    pub fn remove_peer(&mut self, node_id: &NodeId)
        requires
            old(self).wf(),
        ensures
            final(self).wf(),
            final(self).view() == old(self).view().remove(node_id.0@),
    {
        match self.find(node_id) {
            Some(i) => {
                proof {
                    lemma_keyed_remove(self.peers@, node_key(), i as int);
                }
                self.peers.remove(i);
            },
            None => {
                assert(self.view() =~= old(self).view().remove(node_id.0@));
            },
        }
    }

    /// A copy of the record of node `node_id`, if known.
    pub fn get_peer(&self, node_id: &NodeId) -> (r: Option<PeerInfo>)
        requires
            self.wf(),
        ensures
            match r {
                Some(p) => self.view().contains_key(node_id.0@) && p.equiv(self.view()[node_id.0@]),
                None => !self.view().contains_key(node_id.0@),
            },
    {
        match self.find(node_id) {
            Some(i) => {
                proof {
                    lemma_keyed_index(self.peers@, node_key(), i as int);
                }
                Some(self.peers[i].duplicate())
            },
            None => None,
        }
    }

    /// Copies of all records, one per known node.
    pub fn get_all_peers(&self) -> (r: Vec<PeerInfo>)
        requires
            self.wf(),
        ensures
            r@.len() == self.view().dom().len(),
            forall|i: int|
                0 <= i < r@.len() ==> self.view().contains_key((#[trigger] r@[i]).node_id.0@)
                    && r@[i].equiv(self.view()[r@[i].node_id.0@]),
            forall|id: Seq<u8>| #[trigger]
                self.view().contains_key(id) ==> exists|i: int|
                    0 <= i < r@.len() && r@[i].node_id.0@ == id,
    {
        let mut out: Vec<PeerInfo> = Vec::new();
        let mut i: usize = 0;
        while i < self.peers.len()
            invariant
                self.wf(),
                0 <= i <= self.peers@.len(),
                out@.len() == i,
                forall|j: int| 0 <= j < i ==> (#[trigger] out@[j]).node_id == self.peers@[j].node_id,
                forall|j: int|
                    0 <= j < i ==> self.view().contains_key((#[trigger] out@[j]).node_id.0@)
                        && out@[j].equiv(self.view()[out@[j].node_id.0@]),
            decreases self.peers@.len() - i,
        {
            proof {
                lemma_keyed_index(self.peers@, node_key(), i as int);
            }
            out.push(self.peers[i].duplicate());
            i = i + 1;
        }
        proof {
            lemma_keyed_len(self.peers@, node_key());
            assert forall|id: Seq<u8>| #[trigger] self.view().contains_key(id) implies exists|i: int|
                0 <= i < out@.len() && out@[i].node_id.0@ == id by {
                let j = choose|j: int| 0 <= j < self.peers@.len() && node_key()(self.peers@[j]) == id;
                assert(out@[j].node_id == self.peers@[j].node_id);
            }
        }
        out
    }
}

} // verus!

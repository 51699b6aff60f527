//! The peer-level router: which peers are connected, the queue of messages
//! to hand to their connections, the queue of events for the host, and the
//! dispatch of incoming file-transfer messages to the transfer manager.
//! Disk work is handed to the caller as tasks whose outcome it reports back.
use vstd::prelude::*;

use std::collections::VecDeque;
use vstd::string::StringExecFns;

use crate::digest::{decimal_of, decimal_string};
use crate::error::TransferError;
use crate::file::{copy_string, new_file_id, FileChunk, FileMetadata};
use crate::handler::CoreLinkHandlerEvent;
use crate::identity::NodeId;
use crate::manager::{
    chunk_request_post, disk_serve_post, mark_post, offer_post, receive_post, request_post,
    ChunkLookup, FileTransferManager, ReceivePlan, TransferStatus,
};
use crate::message::{DiscoveryMessage, Message, MessageType};
use crate::peer::PeerKey;
use crate::registry::{
    keyed_map, keys_distinct, lemma_keyed_index, lemma_keyed_push, lemma_keyed_remove,
    lemma_keyed_update,
};

verus! {

/// How many chunk requests are issued at a time.
pub const REQUEST_BATCH_SIZE: usize = 5;

/// What the behaviour reports to the host.
#[derive(Debug)]
pub enum MessagingBehaviourEvent {
    MessageReceived { from: PeerKey, message: Message },
    MessageSent { to: PeerKey },
    SendError { to: PeerKey, error: String },
    FileOffered { peer: PeerKey, metadata: FileMetadata },
    /// `downloaded` of `total` chunks of the file are in.
    ChunkReceived { file_id: String, downloaded: u32, total: u32 },
    TransferComplete { file_id: String },
    TransferFailed { file_id: String, reason: String },
}

/// Disk work for the caller, whose outcome it reports back.
#[derive(Debug)]
pub enum DiskTask {
    /// Read `len` bytes at `offset` of the uploaded copy `name`, then call
    /// `chunk_read`.
    ReadChunk { peer: PeerKey, file_id: String, chunk_index: u32, name: String, offset: u64, len: u64 },
    /// Write `data` at `offset` of `output_path`, then call `chunk_written`.
    WriteChunk {
        peer: PeerKey,
        file_id: String,
        chunk_index: u32,
        output_path: String,
        offset: u64,
        data: Vec<u8>,
    },
    /// Move the finished download `output_path` to the completed file `name`.
    MoveCompleted { output_path: String, name: String },
}

/// What the behaviour wants done next.
#[derive(Debug)]
pub enum BehaviourAction {
    /// Report the event to the host.
    Event(MessagingBehaviourEvent),
    /// Hand the message to a connection with the peer.
    Notify { peer: PeerKey, message: Message },
}

/// A connected peer and its open connections.
#[derive(Debug)]
pub struct ConnectedPeer {
    pub peer: PeerKey,
    pub connections: Vec<u64>,
}

/// A connected peer's key: the bytes of its identifier.
pub open spec fn peer_key() -> spec_fn(ConnectedPeer) -> Seq<u8> {
    |c: ConnectedPeer| c.peer@
}

/// The connections other than `c`.
pub open spec fn connection_other_than(c: u64) -> spec_fn(u64) -> bool {
    |x: u64| x != c
}

/// A message sent by this node at `now`, naming no recipient, unsigned.
pub open spec fn outgoing(m: Message, from: NodeId, now: u64) -> bool {
    &&& m.from == from
    &&& m.to is None
    &&& m.timestamp == now
    &&& m.signature@.len() == 0
}

/// The reason given when chunk `i` fails verification.
pub open spec fn verification_failed_reason(i: u32) -> Seq<char> {
    "Chunk "@ + decimal_of(i as nat) + " verification failed"@
}

/// The reason given for a failed step of taking in a chunk.
pub open spec fn error_reason(e: TransferError, file_id: Seq<char>, i: u32) -> Seq<char> {
    match e {
        TransferError::NotFound => "No active download for file: "@ + file_id,
        TransferError::InvalidInput => "Invalid chunk index "@ + decimal_of(i as nat),
        _ => verification_failed_reason(i),
    }
}

/// `after` is `before` with chunk requests for `indices` of file `id` to
/// `peer` appended, in order.
pub open spec fn requests_queued(
    before: Seq<(PeerKey, Message)>,
    after: Seq<(PeerKey, Message)>,
    peer: Seq<u8>,
    id: Seq<char>,
    indices: Seq<u32>,
    from: NodeId,
    now: u64,
) -> bool {
    &&& after.len() == before.len() + indices.len()
    &&& after.take(before.len() as int) == before
    &&& forall|k: int|
        0 <= k < indices.len() ==> {
            let (p, m) = #[trigger] after[before.len() + k];
            &&& p@ == peer
            &&& outgoing(m, from, now)
            &&& m.msg_type matches MessageType::ChunkRequest { file_id, chunk_index }
            &&& file_id@ == id
            &&& chunk_index == indices[k]
        }
}

/// `after` is `before` with one message to `peer` appended.
pub open spec fn one_queued(
    before: Seq<(PeerKey, Message)>,
    after: Seq<(PeerKey, Message)>,
    peer: Seq<u8>,
    from: NodeId,
    now: u64,
) -> bool {
    &&& after.len() == before.len() + 1
    &&& after.drop_last() == before
    &&& after.last().0@ == peer
    &&& outgoing(after.last().1, from, now)
}

/// The first `n` entries of `s`, or all of it where it is shorter.
pub open spec fn first_n(s: Seq<u32>, n: int) -> Seq<u32> {
    s.take(
        if n < s.len() {
            n
        } else {
            s.len() as int
        },
    )
}

/// How a request from `peer` for chunk `i` of `id` was handled, given the
/// manager's answer `l`: nothing for an unknown chunk, the cached chunk sent
/// back, or a disk read to do.
pub open spec fn chunk_request_handled(
    before: MessagingBehaviour,
    after: MessagingBehaviour,
    peer: PeerKey,
    id: String,
    i: u32,
    now: u64,
    l: ChunkLookup,
    r: Option<DiskTask>,
) -> bool {
    &&& chunk_request_post(before.manager(), id@, i, l, after.manager())
    &&& match l {
        ChunkLookup::Unknown => r is None && after.outbox() == before.outbox(),
        ChunkLookup::Cached(c) => {
            &&& r is None
            &&& one_queued(before.outbox(), after.outbox(), peer@, before.sender(), now)
            &&& after.outbox().last().1.msg_type == MessageType::ChunkData(c)
        },
        ChunkLookup::OnDisk { name, offset, len } => {
            &&& after.outbox() == before.outbox()
            &&& r == Some(DiskTask::ReadChunk { peer, file_id: id, chunk_index: i, name, offset, len })
        },
    }
}

/// How a chunk from `peer` was handled, given the manager's plan `p`: an
/// error reported as a failed transfer; a rejected chunk reported as a
/// failed transfer and cancelled with the sender; or a disk write to do.
pub open spec fn chunk_data_handled(
    before: MessagingBehaviour,
    after: MessagingBehaviour,
    peer: PeerKey,
    chunk: FileChunk,
    now: u64,
    p: Result<ReceivePlan, TransferError>,
    r: Option<DiskTask>,
) -> bool {
    &&& receive_post(before.manager(), chunk, p)
    &&& match p {
        Err(e) => {
            &&& r is None
            &&& after.outbox() == before.outbox()
            &&& after.events().drop_last() == before.events()
            &&& after.events().len() == before.events().len() + 1
            &&& after.events().last() matches MessagingBehaviourEvent::TransferFailed { file_id, reason }
            &&& file_id == chunk.file_id
            &&& reason@ == error_reason(e, chunk.file_id@, chunk.chunk_index)
        },
        Ok(ReceivePlan::VerificationFailed { chunk_index }) => {
            &&& r is None
            &&& after.events().drop_last() == before.events()
            &&& after.events().len() == before.events().len() + 1
            &&& after.events().last() matches MessagingBehaviourEvent::TransferFailed { file_id, reason }
            &&& file_id == chunk.file_id
            &&& reason@ == verification_failed_reason(chunk_index)
            &&& one_queued(before.outbox(), after.outbox(), peer@, before.sender(), now)
            &&& after.outbox().last().1.msg_type matches MessageType::TransferCancel { file_id: f, reason: why }
            &&& f == chunk.file_id
            &&& why@ == verification_failed_reason(chunk_index)
        },
        Ok(ReceivePlan::Write { output_path, offset }) => {
            &&& after.outbox() == before.outbox()
            &&& after.events() == before.events()
            &&& r == Some(
                DiskTask::WriteChunk {
                    peer,
                    file_id: chunk.file_id,
                    chunk_index: chunk.chunk_index,
                    output_path,
                    offset,
                    data: chunk.data,
                },
            )
        },
    }
}

/// How a chunk read from disk for `peer` was handled, given what the
/// manager served: sent back, or nothing for an unknown chunk.
pub open spec fn chunk_read_handled(
    before: MessagingBehaviour,
    after: MessagingBehaviour,
    peer: Seq<u8>,
    id: Seq<char>,
    i: u32,
    data: Seq<u8>,
    now: u64,
    c: Option<FileChunk>,
) -> bool {
    &&& disk_serve_post(before.manager(), id, i, data, c, after.manager())
    &&& match c {
        None => after.outbox() == before.outbox(),
        Some(chunk) => {
            &&& one_queued(before.outbox(), after.outbox(), peer, before.sender(), now)
            &&& after.outbox().last().1.msg_type == MessageType::ChunkData(chunk)
        },
    }
}

/// How a written chunk `i` of `id` from `peer` was handled, given what the
/// manager recorded: progress reported and the next batch requested; or
/// completion reported, acknowledged to the sender, and the file to be
/// moved; or a failure reported.
pub open spec fn chunk_written_handled(
    before: MessagingBehaviour,
    after: MessagingBehaviour,
    peer: Seq<u8>,
    id: String,
    i: u32,
    now: u64,
    s: Result<TransferStatus, TransferError>,
    r: Option<DiskTask>,
) -> bool {
    &&& mark_post(before.manager(), id@, i, s, after.manager())
    &&& match s {
        Err(e) => {
            &&& r is None
            &&& after.outbox() == before.outbox()
            &&& after.events().drop_last() == before.events()
            &&& after.events().len() == before.events().len() + 1
            &&& after.events().last() matches MessagingBehaviourEvent::TransferFailed { file_id, reason }
            &&& file_id == id
            &&& reason@ == error_reason(e, id@, i)
        },
        Ok(TransferStatus::ChunkReceived { downloaded, total }) => {
            &&& r is None
            &&& after.events() == before.events().push(
                MessagingBehaviourEvent::ChunkReceived { file_id: id, downloaded, total },
            )
            &&& requests_queued(
                before.outbox(),
                after.outbox(),
                peer,
                id@,
                first_n(after.manager().downloads()[id@].missing_chunks@, REQUEST_BATCH_SIZE as int),
                before.sender(),
                now,
            )
        },
        Ok(TransferStatus::TransferComplete { output_path, name }) => {
            &&& r == Some(DiskTask::MoveCompleted { output_path, name })
            &&& after.events() == before.events().push(
                MessagingBehaviourEvent::TransferComplete { file_id: id },
            )
            &&& one_queued(before.outbox(), after.outbox(), peer, before.sender(), now)
            &&& after.outbox().last().1.msg_type matches MessageType::TransferComplete { file_id, success }
            &&& file_id == id
            &&& success
        },
    }
}

/// How a message from `peer` was handled: an offer is reported; a chunk
/// request is answered from the cache or becomes a disk read; a chunk is
/// rejected with a cancel to its sender or becomes a disk write; anything
/// else is reported as it came.
pub open spec fn message_handled(
    before: MessagingBehaviour,
    after: MessagingBehaviour,
    peer: PeerKey,
    message: Message,
    now: u64,
    r: Option<DiskTask>,
) -> bool {
    match message.msg_type {
        MessageType::FileOffer(meta) => {
            &&& r is None
            &&& after.outbox() == before.outbox()
            &&& after.manager() == before.manager()
            &&& after.events() == before.events().push(
                MessagingBehaviourEvent::FileOffered { peer: peer, metadata: meta },
            )
        },
        MessageType::ChunkRequest { file_id, chunk_index } => {
            &&& after.events() == before.events()
            &&& exists|l: ChunkLookup|
                chunk_request_handled(before, after, peer, file_id, chunk_index, now, l, r)
        },
        MessageType::ChunkData(chunk) => {
            &&& after.manager() == before.manager()
            &&& exists|p: Result<ReceivePlan, TransferError>|
                chunk_data_handled(before, after, peer, chunk, now, p, r)
        },
        _ => {
            &&& r is None
            &&& after.outbox() == before.outbox()
            &&& after.manager() == before.manager()
            &&& after.events() == before.events().push(
                MessagingBehaviourEvent::MessageReceived { from: peer, message },
            )
        },
    }
}

/// Connected peers, queues, and the transfer manager of one node.
pub struct MessagingBehaviour {
    connected_peers: Vec<ConnectedPeer>,
    pending_handler_messages: VecDeque<(PeerKey, Message)>,
    pending_events: VecDeque<MessagingBehaviourEvent>,
    file_manager: FileTransferManager,
    local_id: NodeId,
}

impl MessagingBehaviour {
    /// Connected peers in the order they first connected.
    pub closed spec fn peers(&self) -> Seq<Seq<u8>> {
        self.connected_peers@.map_values(|c: ConnectedPeer| c.peer@)
    }

    /// Each connected peer's open connections.
    pub closed spec fn connections(&self) -> Map<Seq<u8>, Seq<u64>> {
        keyed_map(self.connected_peers@, peer_key()).map_values(|c: ConnectedPeer| c.connections@)
    }

    /// Messages waiting to be handed to connections, oldest first.
    pub closed spec fn outbox(&self) -> Seq<(PeerKey, Message)> {
        self.pending_handler_messages@
    }

    /// Events waiting to be reported, oldest first.
    pub closed spec fn events(&self) -> Seq<MessagingBehaviourEvent> {
        self.pending_events@
    }

    /// The transfer manager.
    pub closed spec fn manager(&self) -> FileTransferManager {
        self.file_manager
    }

    /// The sender id put on outgoing messages.
    pub closed spec fn sender(&self) -> NodeId {
        self.local_id
    }

    pub closed spec fn wf(&self) -> bool {
        &&& keys_distinct(self.connected_peers@, peer_key())
        &&& forall|i: int|
            0 <= i < self.connected_peers@.len() ==> (#[trigger] self.connected_peers@[i]).connections@.len() > 0
        &&& self.file_manager.wf()
    }

    /// The transfer manager, for queries.
    pub fn file_manager(&self) -> (r: &FileTransferManager)
        ensures
            *r == self.manager(),
    {
        &self.file_manager
    }

    /// A behaviour with no peers, nothing queued, and an empty transfer
    /// manager; its messages carry the id of the all-zero public key.
    pub fn new() -> (r: MessagingBehaviour)
        ensures
            r.wf(),
            r.peers().len() == 0,
            r.outbox().len() == 0,
            r.events().len() == 0,
            r.manager().uploads().is_empty(),
            r.manager().downloads().is_empty(),
            r.sender().0@ == crate::digest::blake3_of(Seq::new(32, |i: int| 0u8)),
    {
        let zero_key: [u8; 32] = [0u8; 32];
        assert(zero_key@ =~= Seq::new(32, |i: int| 0u8));
        let r = MessagingBehaviour {
            connected_peers: Vec::new(),
            pending_handler_messages: VecDeque::new(),
            pending_events: VecDeque::new(),
            file_manager: FileTransferManager::new(),
            local_id: NodeId::from_pubkey(&zero_key),
        };
        assert(r.peers() =~= Seq::empty());
        r
    }

    /// Queues `message` for `peer`.
    pub fn send_message(&mut self, peer: PeerKey, message: Message)
        requires
            old(self).wf(),
        ensures
            final(self).wf(),
            final(self).outbox() == old(self).outbox().push((peer, message)),
            final(self).events() == old(self).events(),
            final(self).peers() == old(self).peers(),
            final(self).connections() == old(self).connections(),
            final(self).manager() == old(self).manager(),
            final(self).sender() == old(self).sender(),
    {
        self.pending_handler_messages.push_back((peer, message));
    }

    /// The next thing to do: report the oldest event if there is one, else
    /// hand over the oldest queued message, else nothing.
    pub fn poll(&mut self) -> (r: Option<BehaviourAction>)
        requires
            old(self).wf(),
        ensures
            final(self).wf(),
            final(self).peers() == old(self).peers(),
            final(self).connections() == old(self).connections(),
            final(self).manager() == old(self).manager(),
            final(self).sender() == old(self).sender(),
            old(self).events().len() > 0 ==> r == Some(BehaviourAction::Event(old(self).events()[0]))
                && final(self).events() == old(self).events().drop_first() && final(self).outbox()
                == old(self).outbox(),
            old(self).events().len() == 0 && old(self).outbox().len() > 0 ==> r == Some(
                BehaviourAction::Notify {
                    peer: old(self).outbox()[0].0,
                    message: old(self).outbox()[0].1,
                },
            ) && final(self).events() == old(self).events() && final(self).outbox() == old(self).outbox().drop_first(),
            old(self).events().len() == 0 && old(self).outbox().len() == 0 ==> r is None
                && final(self).events() == old(self).events() && final(self).outbox() == old(self).outbox(),
    {
        if let Some(event) = self.pending_events.pop_front() {
            return Some(BehaviourAction::Event(event));
        }
        if let Some((peer, message)) = self.pending_handler_messages.pop_front() {
            return Some(BehaviourAction::Notify { peer, message });
        }
        None
    }

    /// Position of `peer` among the connected peers, if it is connected.
    fn find_peer(&self, peer: &PeerKey) -> (r: Option<usize>)
        requires
            self.wf(),
        ensures
            match r {
                Some(i) => i < self.connected_peers@.len() && self.connected_peers@[i as int].peer@
                    == peer@ && self.peers()[i as int] == peer@,
                None => !self.connections().contains_key(peer@) && !self.peers().contains(peer@),
            },
    {
        let mut i: usize = 0;
        while i < self.connected_peers.len()
            invariant
                self.wf(),
                0 <= i <= self.connected_peers@.len(),
                forall|j: int| 0 <= j < i ==> self.connected_peers@[j].peer@ != peer@,
            decreases self.connected_peers@.len() - i,
        {
            if self.connected_peers[i].peer.same(peer) {
                return Some(i);
            }
            i = i + 1;
        }
        proof {
            if self.peers().contains(peer@) {
                let j = choose|j: int| 0 <= j < self.peers().len() && self.peers()[j] == peer@;
                assert(self.connected_peers@[j].peer@ == peer@);
            }
            if keyed_map(self.connected_peers@, peer_key()).contains_key(peer@) {
                let j = choose|j: int|
                    0 <= j < self.connected_peers@.len() && peer_key()(self.connected_peers@[j])
                        == peer@;
            }
        }
        None
    }

    /// A connection with `peer` is established.
    pub fn on_connection_established(&mut self, peer: PeerKey, connection: u64)
        requires
            old(self).wf(),
        ensures
            final(self).wf(),
            old(self).connections().contains_key(peer@) ==> final(self).connections() == old(self).connections().insert(peer@, old(self).connections()[peer@].push(connection))
                && final(self).peers() == old(self).peers(),
            !old(self).connections().contains_key(peer@) ==> final(self).connections() == old(self).connections().insert(peer@, seq![connection]) && final(self).peers() == old(self).peers().push(peer@),
            final(self).outbox() == old(self).outbox(),
            final(self).events() == old(self).events(),
            final(self).manager() == old(self).manager(),
            final(self).sender() == old(self).sender(),
    {
        let ghost s0 = self.connected_peers@;
        match self.find_peer(&peer) {
            Some(i) => {
                let mut entry = self.connected_peers.remove(i);
                entry.connections.push(connection);
                self.connected_peers.insert(i, entry);
                proof {
                    assert(self.connected_peers@ =~= s0.update(i as int, entry));
                    lemma_keyed_update(s0, peer_key(), i as int, entry);
                    lemma_keyed_index(s0, peer_key(), i as int);
                    assert(self.connections() =~= old(self).connections().insert(
                        peer@,
                        old(self).connections()[peer@].push(connection),
                    ));
                    assert(self.peers() =~= old(self).peers());
                    assert forall|j: int| 0 <= j < self.connected_peers@.len() implies (#[trigger] self.connected_peers@[j]).connections@.len() > 0 by {
                        if j != i {
                            assert(self.connected_peers@[j] == s0[j]);
                        }
                    }
                }
            },
            None => {
                let mut connections: Vec<u64> = Vec::new();
                connections.push(connection);
                let entry = ConnectedPeer { peer, connections };
                proof {
                    lemma_keyed_push(s0, peer_key(), entry);
                }
                self.connected_peers.push(entry);
                proof {
                    assert(self.connected_peers@ == s0.push(entry));
                    assert(self.connections() =~= old(self).connections().insert(
                        peer@,
                        seq![connection],
                    ));
                    assert(self.peers() =~= old(self).peers().push(peer@));
                    assert forall|j: int| 0 <= j < self.connected_peers@.len() implies (#[trigger] self.connected_peers@[j]).connections@.len() > 0 by {
                        if j < s0.len() {
                            assert(self.connected_peers@[j] == s0[j]);
                        }
                    }
                }
            },
        }
    }

    /// A connection with `peer` closed: it is forgotten, and the peer with
    /// it when it was the last one.
    pub fn on_connection_closed(&mut self, peer: &PeerKey, connection: u64)
        requires
            old(self).wf(),
        ensures
            final(self).wf(),
            !old(self).connections().contains_key(peer@) ==> final(self).connections() == old(self).connections() && final(self).peers() == old(self).peers(),
            old(self).connections().contains_key(peer@) ==> {
                let rest = old(self).connections()[peer@].filter(connection_other_than(connection));
                if rest.len() == 0 {
                    &&& final(self).connections() == old(self).connections().remove(peer@)
                    &&& exists|i: int|
                        0 <= i < old(self).peers().len() && old(self).peers()[i] == peer@ && final(self).peers() == old(self).peers().remove(i)
                } else {
                    &&& final(self).connections() == old(self).connections().insert(peer@, rest)
                    &&& final(self).peers() == old(self).peers()
                }
            },
            final(self).outbox() == old(self).outbox(),
            final(self).events() == old(self).events(),
            final(self).manager() == old(self).manager(),
            final(self).sender() == old(self).sender(),
    {
        let ghost s0 = self.connected_peers@;
        let i = match self.find_peer(peer) {
            Some(i) => i,
            None => {
                return;
            },
        };
        proof {
            lemma_keyed_index(s0, peer_key(), i as int);
        }
        let mut entry = self.connected_peers.remove(i);
        let ghost conns = entry.connections@;
        let ghost keep = connection_other_than(connection);
        let mut kept: Vec<u64> = Vec::new();
        let mut j: usize = 0;
        while j < entry.connections.len()
            invariant
                entry.connections@ == conns,
                keep == connection_other_than(connection),
                0 <= j <= conns.len(),
                kept@ == conns.take(j as int).filter(keep),
            decreases conns.len() - j,
        {
            let c = entry.connections[j];
            proof {
                assert(conns.take(j + 1) =~= conns.take(j as int).push(c));
                conns.take(j as int).lemma_filter_push(c, keep);
            }
            if c != connection {
                kept.push(c);
            }
            j = j + 1;
        }
        proof {
            assert(conns.take(conns.len() as int) =~= conns);
        }
        if kept.len() == 0 {
            proof {
                lemma_keyed_remove(s0, peer_key(), i as int);
                assert(self.connected_peers@ == s0.remove(i as int));
                assert(self.connections() =~= old(self).connections().remove(peer@));
                assert(self.peers() =~= old(self).peers().remove(i as int));
                assert forall|k: int| 0 <= k < self.connected_peers@.len() implies (#[trigger] self.connected_peers@[k]).connections@.len() > 0 by {
                    if k < i {
                        assert(self.connected_peers@[k] == s0[k]);
                    } else {
                        assert(self.connected_peers@[k] == s0[k + 1]);
                    }
                }
            }
            return;
        }
        entry.connections = kept;
        self.connected_peers.insert(i, entry);
        proof {
            assert(self.connected_peers@ =~= s0.update(i as int, entry));
            lemma_keyed_update(s0, peer_key(), i as int, entry);
            assert(self.connections() =~= old(self).connections().insert(
                peer@,
                old(self).connections()[peer@].filter(connection_other_than(connection)),
            ));
            assert(self.peers() =~= old(self).peers());
            assert forall|k: int| 0 <= k < self.connected_peers@.len() implies (#[trigger] self.connected_peers@[k]).connections@.len() > 0 by {
                if k != i {
                    assert(self.connected_peers@[k] == s0[k]);
                }
            }
        }
    }

    /// Number of connected peers.
    pub fn connected_peer_count(&self) -> (r: usize)
        requires
            self.wf(),
        ensures
            r == self.peers().len(),
    {
        self.connected_peers.len()
    }

    /// Queues a discovery message, announcing storage and compute at protocol
    /// version 1.0.0, for every connected peer in turn.
    pub fn broadcast_discovery(&mut self, now: u64)
        requires
            old(self).wf(),
        ensures
            final(self).wf(),
            final(self).outbox().len() == old(self).outbox().len() + old(self).peers().len(),
            final(self).outbox().take(old(self).outbox().len() as int) == old(self).outbox(),
            forall|i: int|
                0 <= i < old(self).peers().len() ==> {
                    let (p, m) = #[trigger] final(self).outbox()[old(self).outbox().len() + i];
                    &&& p@ == old(self).peers()[i]
                    &&& outgoing(m, old(self).sender(), now)
                    &&& m.msg_type matches MessageType::Discovery(d)
                    &&& d.capabilities@.len() == 2
                    &&& d.capabilities@[0]@ == "storage"@
                    &&& d.capabilities@[1]@ == "compute"@
                    &&& d.protocol_version@ == "1.0.0"@
                },
            final(self).events() == old(self).events(),
            final(self).peers() == old(self).peers(),
            final(self).connections() == old(self).connections(),
            final(self).manager() == old(self).manager(),
            final(self).sender() == old(self).sender(),
    {
        let ghost start = self.pending_handler_messages@;
        let n = self.connected_peers.len();
        let mut i: usize = 0;
        while i < n
            invariant
                self.wf(),
                n == self.connected_peers@.len(),
                self.peers() == old(self).peers(),
                self.connections() == old(self).connections(),
                self.events() == old(self).events(),
                self.manager() == old(self).manager(),
                self.sender() == old(self).sender(),
                start == old(self).outbox(),
                0 <= i <= n,
                self.outbox().len() == start.len() + i,
                self.outbox().take(start.len() as int) == start,
                forall|k: int|
                    0 <= k < i ==> {
                        let (p, m) = #[trigger] self.outbox()[start.len() + k];
                        &&& p@ == old(self).peers()[k]
                        &&& outgoing(m, old(self).sender(), now)
                        &&& m.msg_type matches MessageType::Discovery(d)
                        &&& d.capabilities@.len() == 2
                        &&& d.capabilities@[0]@ == "storage"@
                        &&& d.capabilities@[1]@ == "compute"@
                        &&& d.protocol_version@ == "1.0.0"@
                    },
            decreases n - i,
        {
            let mut capabilities: Vec<String> = Vec::new();
            capabilities.push(String::from_str("storage"));
            capabilities.push(String::from_str("compute"));
            let message = Message {
                from: self.local_id,
                to: None,
                msg_type: MessageType::Discovery(
                    DiscoveryMessage { capabilities, protocol_version: String::from_str("1.0.0") },
                ),
                timestamp: now,
                signature: Vec::new(),
            };
            let peer = self.connected_peers[i].peer.duplicate();
            let ghost before = self.pending_handler_messages@;
            self.pending_handler_messages.push_back((peer, message));
            proof {
                assert(self.outbox() == before.push((peer, message)));
                assert(self.outbox().take(start.len() as int) =~= start);
                assert(self.peers()[i as int] == self.connected_peers@[i as int].peer@);
            }
            i = i + 1;
        }
    }


    /// A message from this node at `now` with the given payload.
    fn outgoing_message(&self, msg_type: MessageType, now: u64) -> (r: Message)
        ensures
            outgoing(r, self.sender(), now),
            r.msg_type == msg_type,
    {
        Message { from: self.local_id, to: None, msg_type, timestamp: now, signature: Vec::new() }
    }

    /// Queues a chunk request to `peer` for each of `indices` of `file_id`.
    fn request_chunks(&mut self, peer: &PeerKey, file_id: &String, indices: &Vec<u32>, now: u64)
        requires
            old(self).wf(),
        ensures
            final(self).wf(),
            requests_queued(
                old(self).outbox(),
                final(self).outbox(),
                peer@,
                file_id@,
                indices@,
                old(self).sender(),
                now,
            ),
            final(self).events() == old(self).events(),
            final(self).peers() == old(self).peers(),
            final(self).connections() == old(self).connections(),
            final(self).manager() == old(self).manager(),
            final(self).sender() == old(self).sender(),
    {
        let ghost start = self.pending_handler_messages@;
        proof {
            assert(start.take(start.len() as int) =~= start);
            assert(indices@.take(0) =~= Seq::<u32>::empty());
        }
        let mut k: usize = 0;
        while k < indices.len()
            invariant
                self.wf(),
                start == old(self).outbox(),
                self.events() == old(self).events(),
                self.peers() == old(self).peers(),
                self.connections() == old(self).connections(),
                self.manager() == old(self).manager(),
                self.sender() == old(self).sender(),
                0 <= k <= indices@.len(),
                requests_queued(
                    start,
                    self.outbox(),
                    peer@,
                    file_id@,
                    indices@.take(k as int),
                    old(self).sender(),
                    now,
                ),
            decreases indices@.len() - k,
        {
            let message = self.outgoing_message(
                MessageType::ChunkRequest { file_id: copy_string(file_id), chunk_index: indices[k] },
                now,
            );
            let p = peer.duplicate();
            let ghost before = self.pending_handler_messages@;
            self.pending_handler_messages.push_back((p, message));
            proof {
                assert(self.outbox() == before.push((p, message)));
                assert(self.outbox().take(start.len() as int) =~= start);
                assert(indices@.take(k + 1)[k as int] == indices@[k as int]);
                assert forall|j: int| 0 <= j < k + 1 implies {
                    let (q, m) = #[trigger] self.outbox()[start.len() + j];
                    &&& q@ == peer@
                    &&& outgoing(m, old(self).sender(), now)
                    &&& m.msg_type matches MessageType::ChunkRequest { file_id: f, chunk_index }
                    &&& f@ == file_id@
                    &&& chunk_index == indices@.take(k + 1)[j]
                } by {
                    if j < k {
                        assert(self.outbox()[start.len() + j] == before[start.len() + j]);
                        assert(indices@.take(k + 1)[j] == indices@.take(k as int)[j]);
                    }
                }
            }
            k = k + 1;
        }
        proof {
            assert(indices@.take(indices@.len() as int) =~= indices@);
        }
    }

    /// The reason given when chunk `i` fails verification.
    fn verification_reason(i: u32) -> (r: String)
        ensures
            r@ == verification_failed_reason(i),
    {
        let mut s = String::from_str("Chunk ");
        let digits = decimal_string(i);
        s.append(digits.as_str());
        s.append(" verification failed");
        s
    }

    /// The reason given for a failed step of taking in chunk `i` of `file_id`.
    fn error_text(e: TransferError, file_id: &String, i: u32) -> (r: String)
        ensures
            r@ == error_reason(e, file_id@, i),
    {
        match e {
            TransferError::NotFound => {
                let mut s = String::from_str("No active download for file: ");
                s.append(file_id.as_str());
                s
            },
            TransferError::InvalidInput => {
                let mut s = String::from_str("Invalid chunk index ");
                let digits = decimal_string(i);
                s.append(digits.as_str());
                s
            },
            _ => Self::verification_reason(i),
        }
    }

    /// Handles a message from `peer`: an offer is reported; a chunk request
    /// is answered from the cache, or becomes a disk read; a chunk is checked
    /// and becomes a disk write, or is rejected with a cancel to the sender;
    /// anything else is reported as it came.
    pub fn on_message_received(&mut self, peer: PeerKey, message: Message, now: u64) -> (r: Option<
        DiskTask,
    >)
        requires
            old(self).wf(),
        ensures
            final(self).wf(),
            final(self).peers() == old(self).peers(),
            final(self).connections() == old(self).connections(),
            final(self).sender() == old(self).sender(),
            message_handled(*old(self), *final(self), peer, message, now, r),
    {
        let Message { from, to, msg_type, timestamp, signature } = message;
        match msg_type {
            MessageType::FileOffer(metadata) => {
                self.pending_events.push_back(MessagingBehaviourEvent::FileOffered { peer, metadata });
                None
            },
            MessageType::ChunkRequest { file_id, chunk_index } => {
                let ghost id = file_id;
                let ghost who = peer;
                let lookup = self.file_manager.handle_chunk_request(&file_id, chunk_index);
                let ghost l = lookup;
                let r = match lookup {
                    ChunkLookup::Unknown => None,
                    ChunkLookup::Cached(chunk) => {
                        let reply = self.outgoing_message(MessageType::ChunkData(chunk), now);
                        self.pending_handler_messages.push_back((peer, reply));
                        assert(self.outbox().drop_last() =~= old(self).outbox());
                        None
                    },
                    ChunkLookup::OnDisk { name, offset, len } => {
                        Some(DiskTask::ReadChunk { peer, file_id, chunk_index, name, offset, len })
                    },
                };
                assert(chunk_request_handled(*old(self), *self, who, id, chunk_index, now, l, r));
                r
            },
            MessageType::ChunkData(chunk) => {
                let ghost c = chunk;
                let ghost who = peer;
                let plan = self.file_manager.handle_chunk_received(&chunk);
                let ghost p = plan;
                let r = match plan {
                    Err(e) => {
                        let reason = Self::error_text(e, &chunk.file_id, chunk.chunk_index);
                        self.pending_events.push_back(
                            MessagingBehaviourEvent::TransferFailed { file_id: chunk.file_id, reason },
                        );
                        assert(self.events().drop_last() =~= old(self).events());
                        None
                    },
                    Ok(ReceivePlan::VerificationFailed { chunk_index }) => {
                        let reason = Self::verification_reason(chunk_index);
                        let why = Self::verification_reason(chunk_index);
                        let cancel = self.outgoing_message(
                            MessageType::TransferCancel { file_id: copy_string(&chunk.file_id), reason: why },
                            now,
                        );
                        self.pending_events.push_back(
                            MessagingBehaviourEvent::TransferFailed { file_id: chunk.file_id, reason },
                        );
                        self.pending_handler_messages.push_back((peer, cancel));
                        assert(self.outbox().drop_last() =~= old(self).outbox());
                        assert(self.events().drop_last() =~= old(self).events());
                        None
                    },
                    Ok(ReceivePlan::Write { output_path, offset }) => {
                        let FileChunk { file_id, chunk_index, data, hash } = chunk;
                        Some(DiskTask::WriteChunk { peer, file_id, chunk_index, output_path, offset, data })
                    },
                };
                assert(chunk_data_handled(*old(self), *self, who, c, now, p, r));
                r
            },
            other => {
                let message = Message { from, to, msg_type: other, timestamp, signature };
                self.pending_events.push_back(MessagingBehaviourEvent::MessageReceived { from: peer, message });
                None
            },
        }
    }

    /// Handles an event of a connection with `peer`.
    pub fn on_connection_handler_event(&mut self, peer: PeerKey, event: CoreLinkHandlerEvent, now: u64) -> (r:
        Option<DiskTask>)
        requires
            old(self).wf(),
        ensures
            final(self).wf(),
            final(self).peers() == old(self).peers(),
            final(self).connections() == old(self).connections(),
            final(self).sender() == old(self).sender(),
            match event {
                CoreLinkHandlerEvent::MessageReceived(m) => message_handled(
                    *old(self),
                    *final(self),
                    peer,
                    m,
                    now,
                    r,
                ),
                CoreLinkHandlerEvent::MessageSent => {
                    &&& r is None
                    &&& final(self).events() == old(self).events().push(
                        MessagingBehaviourEvent::MessageSent { to: peer },
                    )
                    &&& final(self).outbox() == old(self).outbox()
                    &&& final(self).manager() == old(self).manager()
                },
                CoreLinkHandlerEvent::SendError(error) => {
                    &&& r is None
                    &&& final(self).events() == old(self).events().push(
                        MessagingBehaviourEvent::SendError { to: peer, error },
                    )
                    &&& final(self).outbox() == old(self).outbox()
                    &&& final(self).manager() == old(self).manager()
                },
            },
    {
        match event {
            CoreLinkHandlerEvent::MessageReceived(message) => self.on_message_received(peer, message, now),
            CoreLinkHandlerEvent::MessageSent => {
                self.pending_events.push_back(MessagingBehaviourEvent::MessageSent { to: peer });
                None
            },
            CoreLinkHandlerEvent::SendError(error) => {
                self.pending_events.push_back(MessagingBehaviourEvent::SendError { to: peer, error });
                None
            },
        }
    }


    /// A chunk read from disk for `peer` is in (or the read failed, which
    /// changes nothing): the manager serves it and it is sent back.
    pub fn chunk_read(
        &mut self,
        peer: PeerKey,
        file_id: String,
        chunk_index: u32,
        result: Result<Vec<u8>, String>,
        now: u64,
    )
        requires
            old(self).wf(),
        ensures
            final(self).wf(),
            final(self).peers() == old(self).peers(),
            final(self).connections() == old(self).connections(),
            final(self).sender() == old(self).sender(),
            final(self).events() == old(self).events(),
            match result {
                Err(_) => final(self).outbox() == old(self).outbox() && final(self).manager() == old(
                    self,
                ).manager(),
                Ok(data) => exists|c: Option<FileChunk>|
                    chunk_read_handled(*old(self), *final(self), peer@, file_id@, chunk_index, data@, now, c),
            },
    {
        match result {
            Err(_) => {},
            Ok(data) => {
                let ghost bytes = data@;
                let served = self.file_manager.serve_chunk_from_disk(&file_id, chunk_index, data);
                let ghost c = served;
                match served {
                    Some(chunk) => {
                        let reply = self.outgoing_message(MessageType::ChunkData(chunk), now);
                        self.pending_handler_messages.push_back((peer, reply));
                        assert(self.outbox().drop_last() =~= old(self).outbox());
                    },
                    None => {},
                }
                assert(chunk_read_handled(*old(self), *self, peer@, file_id@, chunk_index, bytes, now, c));
            },
        }
    }

    /// A chunk of `file_id` from `peer` has been written (or the write
    /// failed, which is reported as a failed transfer). The manager records
    /// it; progress is reported and the next batch of missing chunks is
    /// requested from the same peer, or, at the last chunk, completion is
    /// reported and acknowledged to the sender and the file is to be moved.
    pub fn chunk_written(
        &mut self,
        peer: PeerKey,
        file_id: String,
        chunk_index: u32,
        result: Result<(), String>,
        now: u64,
    ) -> (r: Option<DiskTask>)
        requires
            old(self).wf(),
        ensures
            final(self).wf(),
            final(self).peers() == old(self).peers(),
            final(self).connections() == old(self).connections(),
            final(self).sender() == old(self).sender(),
            match result {
                Err(e) => {
                    &&& r is None
                    &&& final(self).outbox() == old(self).outbox()
                    &&& final(self).manager() == old(self).manager()
                    &&& final(self).events() == old(self).events().push(
                        MessagingBehaviourEvent::TransferFailed { file_id, reason: e },
                    )
                },
                Ok(_) => exists|s: Result<TransferStatus, TransferError>|
                    chunk_written_handled(*old(self), *final(self), peer@, file_id, chunk_index, now, s, r),
            },
    {
        match result {
            Err(reason) => {
                self.pending_events.push_back(MessagingBehaviourEvent::TransferFailed { file_id, reason });
                None
            },
            Ok(_) => {
                let ghost id = file_id;
                let status = self.file_manager.mark_chunk_written(&file_id, chunk_index);
                let ghost s = status;
                let r = match status {
                    Err(e) => {
                        let reason = Self::error_text(e, &file_id, chunk_index);
                        self.pending_events.push_back(
                            MessagingBehaviourEvent::TransferFailed { file_id, reason },
                        );
                        assert(self.events().drop_last() =~= old(self).events());
                        None
                    },
                    Ok(TransferStatus::ChunkReceived { downloaded, total }) => {
                        let next = self.file_manager.get_next_chunks_to_request(
                            &file_id,
                            REQUEST_BATCH_SIZE,
                        );
                        self.request_chunks(&peer, &file_id, &next, now);
                        self.pending_events.push_back(
                            MessagingBehaviourEvent::ChunkReceived { file_id, downloaded, total },
                        );
                        None
                    },
                    Ok(TransferStatus::TransferComplete { output_path, name }) => {
                        let ack = self.outgoing_message(
                            MessageType::TransferComplete { file_id: copy_string(&file_id), success: true },
                            now,
                        );
                        self.pending_events.push_back(MessagingBehaviourEvent::TransferComplete { file_id });
                        self.pending_handler_messages.push_back((peer, ack));
                        assert(self.outbox().drop_last() =~= old(self).outbox());
                        Some(DiskTask::MoveCompleted { output_path, name })
                    },
                };
                assert(chunk_written_handled(*old(self), *self, peer@, id, chunk_index, now, s, r));
                r
            },
        }
    }

    /// Starts downloading the file `metadata` describes from `peer` into
    /// `output_path` and requests the first batch of chunks from it.
    pub fn request_file(
        &mut self,
        peer: PeerKey,
        metadata: FileMetadata,
        output_path: String,
        now: u64,
    ) -> (r: Result<String, TransferError>)
        requires
            old(self).wf(),
        ensures
            final(self).wf(),
            final(self).peers() == old(self).peers(),
            final(self).connections() == old(self).connections(),
            final(self).sender() == old(self).sender(),
            final(self).events() == old(self).events(),
            request_post(old(self).manager(), metadata, output_path@, peer@, now, r, final(self).manager()),
            match r {
                Err(_) => final(self).outbox() == old(self).outbox(),
                Ok(id) => requests_queued(
                    old(self).outbox(),
                    final(self).outbox(),
                    peer@,
                    id@,
                    first_n(
                        final(self).manager().downloads()[id@].missing_chunks@,
                        REQUEST_BATCH_SIZE as int,
                    ),
                    old(self).sender(),
                    now,
                ),
            },
    {
        let source = peer.duplicate();
        let r = self.file_manager.request_file(metadata, output_path, peer, now);
        match &r {
            Err(_) => {},
            Ok(id) => {
                let first = self.file_manager.get_next_chunks_to_request(id, REQUEST_BATCH_SIZE);
                self.request_chunks(&source, id, &first, now);
            },
        }
        r
    }

    /// Offers the file with contents `data` under `name` and a fresh random
    /// id, and queues the offer for every connected peer in turn.
    pub fn offer_file(&mut self, data: &[u8], name: String, created_at: u64, now: u64) -> (r:
        FileMetadata)
        requires
            old(self).wf(),
            crate::file::chunk_count(data@.len() as int, crate::file::DEFAULT_CHUNK_SIZE as int)
                <= u32::MAX,
        ensures
            final(self).wf(),
            final(self).peers() == old(self).peers(),
            final(self).connections() == old(self).connections(),
            final(self).sender() == old(self).sender(),
            final(self).events() == old(self).events(),
            r.file_id@.len() == 36,
            offer_post(old(self).manager(), data@, name@, r.file_id@, created_at, r, final(self).manager()),
            final(self).outbox().len() == old(self).outbox().len() + old(self).peers().len(),
            final(self).outbox().take(old(self).outbox().len() as int) == old(self).outbox(),
            forall|i: int|
                0 <= i < old(self).peers().len() ==> {
                    let (p, m) = #[trigger] final(self).outbox()[old(self).outbox().len() + i];
                    &&& p@ == old(self).peers()[i]
                    &&& outgoing(m, old(self).sender(), now)
                    &&& m.msg_type matches MessageType::FileOffer(offered)
                    &&& offered.equiv(r)
                },
    {
        let file_id = new_file_id();
        let ghost id = file_id@;
        let metadata = self.file_manager.offer_file(data, name, file_id, created_at);
        let ghost start = self.pending_handler_messages@;
        proof {
            assert(start.take(start.len() as int) =~= start);
        }
        let n = self.connected_peers.len();
        let mut i: usize = 0;
        while i < n
            invariant
                self.wf(),
                n == self.connected_peers@.len(),
                self.peers() == old(self).peers(),
                self.connections() == old(self).connections(),
                self.events() == old(self).events(),
                self.sender() == old(self).sender(),
                offer_post(old(self).manager(), data@, name@, id, created_at, metadata, self.manager()),
                metadata.file_id@ == id,
                id.len() == 36,
                start == old(self).outbox(),
                0 <= i <= n,
                self.outbox().len() == start.len() + i,
                self.outbox().take(start.len() as int) == start,
                forall|k: int|
                    0 <= k < i ==> {
                        let (p, m) = #[trigger] self.outbox()[start.len() + k];
                        &&& p@ == old(self).peers()[k]
                        &&& outgoing(m, old(self).sender(), now)
                        &&& m.msg_type matches MessageType::FileOffer(offered)
                        &&& offered.equiv(metadata)
                    },
            decreases n - i,
        {
            let message = self.outgoing_message(MessageType::FileOffer(metadata.duplicate()), now);
            let peer = self.connected_peers[i].peer.duplicate();
            let ghost before = self.pending_handler_messages@;
            self.pending_handler_messages.push_back((peer, message));
            proof {
                assert(self.outbox() == before.push((peer, message)));
                assert(self.outbox().take(start.len() as int) =~= start);
                assert(self.peers()[i as int] == self.connected_peers@[i as int].peer@);
            }
            i = i + 1;
        }
        metadata
    }

    /// Ends the download of `file_id`; gives the path of its partial output,
    /// which the caller deletes.
    pub fn cancel_download(&mut self, file_id: &String) -> (r: Result<String, TransferError>)
        requires
            old(self).wf(),
        ensures
            final(self).wf(),
            final(self).peers() == old(self).peers(),
            final(self).connections() == old(self).connections(),
            final(self).sender() == old(self).sender(),
            final(self).events() == old(self).events(),
            final(self).outbox() == old(self).outbox(),
            final(self).manager().uploads() == old(self).manager().uploads(),
            final(self).manager().cache() == old(self).manager().cache(),
            final(self).manager().downloads() == old(self).manager().downloads().remove(file_id@),
            match r {
                Ok(path) => old(self).manager().downloads().contains_key(file_id@) && path == old(
                    self,
                ).manager().downloads()[file_id@].output_path,
                Err(e) => e == TransferError::NotFound && !old(self).manager().downloads().contains_key(
                    file_id@,
                ),
            },
    {
        self.file_manager.cancel_download(file_id)
    }

}

} // verus!

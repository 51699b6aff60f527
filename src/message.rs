//! The messages peers exchange.
use vstd::prelude::*;

use crate::file::{FileChunk, FileMetadata};
use crate::identity::NodeId;

verus! {

/// A message: sender, optional recipient, payload, time and signature (which
/// may be empty).
#[derive(Debug)]
pub struct Message {
    pub from: NodeId,
    pub to: Option<NodeId>,
    pub msg_type: MessageType,
    pub timestamp: u64,
    pub signature: Vec<u8>,
}

/// The payload of a message.
#[derive(Debug)]
pub enum MessageType {
    Discovery(DiscoveryMessage),
    DataTransfer(DataMessage),
    Consensus(ConsensusMessage),
    Ping,
    Pong,
    FileOffer(FileMetadata),
    FileRequest { file_id: String, requester: NodeId },
    ChunkRequest { file_id: String, chunk_index: u32 },
    ChunkData(FileChunk),
    ChunkRequestBatch { file_id: String, chunk_indices: Vec<u32> },
    TransferComplete { file_id: String, success: bool },
    TransferCancel { file_id: String, reason: String },
}

#[derive(Debug)]
pub struct DiscoveryMessage {
    pub capabilities: Vec<String>,
    pub protocol_version: String,
}

#[derive(Debug)]
pub struct DataMessage {
    pub data_hash: [u8; 32],
    pub chunk_index: u32,
    pub total_chunks: u32,
    pub data: Vec<u8>,
}

#[derive(Debug)]
pub struct ConsensusMessage {
    pub proposal_id: [u8; 32],
    pub proposal_type: ProposalType,
    pub votes: Vec<Vote>,
}

#[derive(Debug, Clone, Copy, PartialEq, Eq, Structural)]
pub enum ProposalType {
    DataValidation,
    NodeAddition,
    NodeRemoval,
}

#[derive(Debug)]
pub struct Vote {
    pub voter: NodeId,
    pub approve: bool,
    pub physical_proof: Option<PhysicalProof>,
}

/// Evidence of physical proximity. The distance estimate, a 32-bit float on
/// the wire, is carried as its IEEE-754 bit pattern.
#[derive(Debug, Clone, Copy)]
pub struct PhysicalProof {
    pub signal_strength: i32,
    pub distance_estimate: Option<u32>,
    pub timestamp: u64,
}

} // verus!

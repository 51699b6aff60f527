use corelink::behaviour::{BehaviourAction, DiskTask, MessagingBehaviour, MessagingBehaviourEvent};
use corelink::codec::CoreLinkCodec;
use corelink::file::{split_file_to_chunks, FileChunk, DEFAULT_CHUNK_SIZE};
use corelink::handler::{CoreLinkHandler, CoreLinkHandlerEvent, CoreLinkProtocol, OutboundStep};
use corelink::identity::NodeId;
use corelink::message::{Message, MessageType};
use corelink::peer::PeerKey;

fn message(msg_type: MessageType) -> Message {
    Message { from: NodeId([3u8; 32]), to: None, msg_type, timestamp: 11, signature: vec![] }
}

fn peer(n: u8) -> PeerKey {
    PeerKey::new(vec![0, 36, n, n])
}

fn drain(b: &mut MessagingBehaviour) -> (Vec<MessagingBehaviourEvent>, Vec<(PeerKey, Message)>) {
    let mut events = Vec::new();
    let mut sent = Vec::new();
    while let Some(action) = b.poll() {
        match action {
            BehaviourAction::Event(e) => events.push(e),
            BehaviourAction::Notify { peer, message } => sent.push((peer, message)),
        }
    }
    (events, sent)
}

#[test]
fn protocol_name() {
    assert_eq!(CoreLinkProtocol.name(), "/corelink/msg/1.0.0");
}

#[test]
fn frame_layout() {
    let frame = CoreLinkCodec::encode_frame(b"hello").unwrap();
    assert_eq!(frame, vec![0, 0, 0, 5, b'h', b'e', b'l', b'l', b'o']);
    assert_eq!(CoreLinkCodec::length_prefix(0x0102_0304), [1, 2, 3, 4]);
    assert_eq!(CoreLinkCodec::frame_length(&[0, 0, 1, 0]), 256);
    assert_eq!(CoreLinkCodec::frame_length(&[0xff, 0xff, 0xff, 0xff]), u32::MAX);
    assert_eq!(CoreLinkCodec::encode_frame(b"").unwrap(), vec![0, 0, 0, 0]);
}

#[test]
fn frame_round_trip() {
    let body: Vec<u8> = (0..1000u32).map(|i| (i % 256) as u8).collect();
    let mut stream = CoreLinkCodec::encode_frame(&body).unwrap();
    stream.extend_from_slice(&CoreLinkCodec::encode_frame(b"next").unwrap());
    let (first, used) = CoreLinkCodec::decode_frame(&stream).unwrap();
    assert_eq!(first, body);
    assert_eq!(used, 1004);
    let (second, used2) = CoreLinkCodec::decode_frame(&stream[used..]).unwrap();
    assert_eq!(second, b"next".to_vec());
    assert_eq!(used2, 8);
}

#[test]
fn partial_frame_is_not_read() {
    assert!(CoreLinkCodec::decode_frame(&[0, 0]).is_none());
    assert!(CoreLinkCodec::decode_frame(&[0, 0, 0, 3, 1, 2]).is_none());
    assert_eq!(CoreLinkCodec::decode_frame(&[0, 0, 0, 0]), Some((vec![], 4)));
}

#[test]
fn handler_waits_for_permission() {
    let mut h: CoreLinkHandler<u32> = CoreLinkHandler::new();
    h.on_behaviour_event(message(MessageType::Ping));
    assert!(matches!(h.poll_outbound(), OutboundStep::Nothing));
    h.fully_negotiated_inbound(1);
    assert!(h.can_request_outbound);
    assert!(matches!(h.poll_outbound(), OutboundStep::RequestSubstream));
    h.fully_negotiated_outbound(2);
    match h.poll_outbound() {
        OutboundStep::Write(stream, m) => {
            assert_eq!(stream, 2);
            assert!(matches!(m.msg_type, MessageType::Ping));
        }
        _ => panic!("expected a write"),
    }
    assert!(h.pending_messages.is_empty());
    assert!(matches!(h.poll_outbound(), OutboundStep::Nothing));
    h.write_finished(Ok(2));
    assert!(matches!(h.next_event(), Some(CoreLinkHandlerEvent::MessageSent)));
    assert_eq!(h.outbound_stream, Some(2));
}

#[test]
fn handler_reads_inbound() {
    let mut h: CoreLinkHandler<u32> = CoreLinkHandler::new();
    assert_eq!(h.take_inbound_for_read(), None);
    h.fully_negotiated_inbound(5);
    assert_eq!(h.take_inbound_for_read(), Some(5));
    assert_eq!(h.take_inbound_for_read(), None);
    let ev = h.read_finished(Ok((5, message(MessageType::Pong))));
    assert!(matches!(ev, Some(CoreLinkHandlerEvent::MessageReceived(_))));
    assert_eq!(h.inbound_stream, Some(5));
    assert_eq!(h.take_inbound_for_read(), Some(5));
    assert!(h.read_finished(Err("reset".to_string())).is_none());
    assert_eq!(h.inbound_stream, None);
}

#[test]
fn handler_send_error_is_reported() {
    let mut h: CoreLinkHandler<u32> = CoreLinkHandler::new();
    h.fully_negotiated_outbound(4);
    h.on_behaviour_event(message(MessageType::Ping));
    assert!(matches!(h.poll_outbound(), OutboundStep::Write(4, _)));
    h.write_finished(Err("broken pipe".to_string()));
    match h.next_event() {
        Some(CoreLinkHandlerEvent::SendError(e)) => assert_eq!(e, "broken pipe"),
        _ => panic!("expected a send error"),
    }
    assert_eq!(h.outbound_stream, None);
}

#[test]
fn handler_gives_up_after_three_dial_failures() {
    let mut h: CoreLinkHandler<u32> = CoreLinkHandler::new();
    h.fully_negotiated_inbound(1);
    h.on_behaviour_event(message(MessageType::Ping));
    h.dial_upgrade_error();
    h.dial_upgrade_error();
    assert!(h.can_request_outbound);
    assert_eq!(h.pending_messages.len(), 1);
    h.dial_upgrade_error();
    assert!(!h.can_request_outbound);
    assert!(h.pending_messages.is_empty());
    assert_eq!(h.dial_upgrade_failures, 3);
    h.listen_upgrade_error();
    assert_eq!(h.listen_upgrade_failures, 1);
    // a success ends the run of failures
    h.fully_negotiated_outbound(9);
    assert_eq!(h.dial_upgrade_failures, 0);
    assert!(h.can_request_outbound);
}

#[test]
fn broadcast_reaches_every_peer() {
    let mut b = MessagingBehaviour::new();
    b.on_connection_established(peer(1), 10);
    b.on_connection_established(peer(2), 11);
    b.on_connection_established(peer(1), 12);
    assert_eq!(b.connected_peer_count(), 2);
    b.broadcast_discovery(42);
    let (events, sent) = drain(&mut b);
    assert!(events.is_empty());
    assert_eq!(sent.len(), 2);
    assert_eq!(sent[0].0.bytes, peer(1).bytes);
    assert_eq!(sent[1].0.bytes, peer(2).bytes);
    for (_, m) in &sent {
        assert_eq!(m.timestamp, 42);
        assert!(m.to.is_none());
        assert_eq!(m.from, NodeId::from_pubkey(&[0u8; 32]));
        match &m.msg_type {
            MessageType::Discovery(d) => {
                assert_eq!(d.capabilities, vec!["storage".to_string(), "compute".to_string()]);
                assert_eq!(d.protocol_version, "1.0.0");
            }
            _ => panic!("expected discovery"),
        }
    }
}

#[test]
fn closing_last_connection_forgets_peer() {
    let mut b = MessagingBehaviour::new();
    b.on_connection_established(peer(1), 10);
    b.on_connection_established(peer(1), 12);
    b.on_connection_closed(&peer(1), 10);
    assert_eq!(b.connected_peer_count(), 1);
    b.on_connection_closed(&peer(1), 12);
    assert_eq!(b.connected_peer_count(), 0);
    b.on_connection_closed(&peer(3), 1);
    assert_eq!(b.connected_peer_count(), 0);
}

#[test]
fn offer_is_reported_and_other_messages_forwarded() {
    let mut b = MessagingBehaviour::new();
    let (metadata, _) =
        split_file_to_chunks(b"xyz", DEFAULT_CHUNK_SIZE, "id".to_string(), "n".to_string(), 0);
    assert!(b.on_message_received(peer(1), message(MessageType::FileOffer(metadata)), 0).is_none());
    assert!(b.on_message_received(peer(1), message(MessageType::Ping), 0).is_none());
    assert!(b.on_connection_handler_event(peer(2), CoreLinkHandlerEvent::MessageSent, 0).is_none());
    let (events, sent) = drain(&mut b);
    assert!(sent.is_empty());
    assert_eq!(events.len(), 3);
    assert!(matches!(&events[0], MessagingBehaviourEvent::FileOffered { metadata, .. } if metadata.name == "n"));
    assert!(matches!(&events[1], MessagingBehaviourEvent::MessageReceived { message, .. } if matches!(message.msg_type, MessageType::Ping)));
    assert!(matches!(&events[2], MessagingBehaviourEvent::MessageSent { to } if to.bytes == peer(2).bytes));
}

#[test]
fn unknown_chunk_request_sends_nothing() {
    let mut b = MessagingBehaviour::new();
    let request = MessageType::ChunkRequest {
        file_id: "00000000-0000-0000-0000-000000000000".to_string(),
        chunk_index: 0,
    };
    assert!(b.on_message_received(peer(1), message(request), 0).is_none());
    let (events, sent) = drain(&mut b);
    assert!(events.is_empty() && sent.is_empty());
}

/// Runs the pull protocol between two behaviours, the disk being memory.
#[test]
fn behaviour_transfer_with_tampering() {
    let data: Vec<u8> = (0..150_000u32).map(|i| (i % 251) as u8).collect();
    let mut up = MessagingBehaviour::new();
    let mut down = MessagingBehaviour::new();
    up.on_connection_established(peer(2), 1);
    let metadata = up.offer_file(&data, "f.bin".to_string(), 0, 5);
    assert_eq!(metadata.file_id.len(), 36);
    let (_, offers) = drain(&mut up);
    assert_eq!(offers.len(), 1);
    assert_eq!(metadata.total_chunks, 3);

    let file_id = down
        .request_file(peer(1), metadata.duplicate(), "downloads/f.bin".to_string(), 6)
        .unwrap();
    let (_, requests) = drain(&mut down);
    let asked: Vec<u32> = requests
        .iter()
        .map(|(_, m)| match &m.msg_type {
            MessageType::ChunkRequest { chunk_index, .. } => *chunk_index,
            _ => panic!("expected chunk requests"),
        })
        .collect();
    assert_eq!(asked, vec![0, 1, 2]);

    // the uploader answers from its cache
    let mut replies = Vec::new();
    for (_, m) in requests {
        assert!(up.on_message_received(peer(2), m, 7).is_none());
    }
    let (_, answers) = drain(&mut up);
    for (_, m) in answers {
        match m.msg_type {
            MessageType::ChunkData(c) => replies.push(c),
            _ => panic!("expected chunk data"),
        }
    }
    assert_eq!(replies.len(), 3);

    // chunk 0 arrives intact
    let mut disk = vec![0u8; data.len()];
    let c0 = FileChunk::new(replies[0].file_id.clone(), 0, replies[0].data.clone());
    match down.on_message_received(peer(1), message(MessageType::ChunkData(c0)), 8) {
        Some(DiskTask::WriteChunk { file_id: f, chunk_index, offset, data: bytes, .. }) => {
            assert_eq!(f, file_id);
            assert_eq!(chunk_index, 0);
            disk[offset as usize..offset as usize + bytes.len()].copy_from_slice(&bytes);
            assert!(down.chunk_written(peer(1), f, 0, Ok(()), 9).is_none());
        }
        other => panic!("expected a write, got {:?}", other),
    }
    let (events, more) = drain(&mut down);
    assert!(matches!(&events[0], MessagingBehaviourEvent::ChunkReceived { downloaded: 1, total: 3, .. }));
    assert_eq!(more.len(), 2);

    // chunk 1 has one bit flipped on the way
    let mut c1 = FileChunk::new(replies[1].file_id.clone(), 1, replies[1].data.clone());
    c1.data[0] ^= 1;
    assert!(down.on_message_received(peer(1), message(MessageType::ChunkData(c1)), 10).is_none());
    let (events, sent) = drain(&mut down);
    assert_eq!(events.len(), 1);
    match &events[0] {
        MessagingBehaviourEvent::TransferFailed { file_id: f, reason } => {
            assert_eq!(f, &file_id);
            assert_eq!(reason, "Chunk 1 verification failed");
        }
        other => panic!("expected a failed transfer, got {:?}", other),
    }
    assert_eq!(sent.len(), 1);
    assert_eq!(sent[0].0.bytes, peer(1).bytes);
    match &sent[0].1.msg_type {
        MessageType::TransferCancel { file_id: f, reason } => {
            assert_eq!(f, &file_id);
            assert_eq!(reason, "Chunk 1 verification failed");
        }
        _ => panic!("expected a cancel"),
    }
    assert!(disk[65536..].iter().all(|b| *b == 0));
}

#[test]
fn completion_is_acknowledged() {
    let data = b"one small chunk".to_vec();
    let mut down = MessagingBehaviour::new();
    let (metadata, chunks) =
        split_file_to_chunks(&data, DEFAULT_CHUNK_SIZE, "s".to_string(), "s.txt".to_string(), 0);
    down.request_file(peer(4), metadata, "downloads/s.txt".to_string(), 0).unwrap();
    drain(&mut down);
    let c = FileChunk::new("s".to_string(), 0, chunks[0].data.clone());
    let task = down.on_message_received(peer(4), message(MessageType::ChunkData(c)), 1);
    assert!(matches!(task, Some(DiskTask::WriteChunk { offset: 0, .. })));
    match down.chunk_written(peer(4), "s".to_string(), 0, Ok(()), 2) {
        Some(DiskTask::MoveCompleted { output_path, name }) => {
            assert_eq!(output_path, "downloads/s.txt");
            assert_eq!(name, "s.txt");
        }
        other => panic!("expected a move, got {:?}", other),
    }
    let (events, sent) = drain(&mut down);
    assert!(matches!(&events[0], MessagingBehaviourEvent::TransferComplete { file_id } if file_id == "s"));
    assert!(matches!(&sent[0].1.msg_type, MessageType::TransferComplete { file_id, success: true } if file_id == "s"));
    assert_eq!(down.file_manager().active_downloads_count(), 0);
}

#[test]
fn failed_write_and_lost_download_are_reported() {
    let mut down = MessagingBehaviour::new();
    assert!(down.chunk_written(peer(1), "x".to_string(), 0, Err("disk full".to_string()), 0).is_none());
    assert!(down.chunk_written(peer(1), "y".to_string(), 2, Ok(()), 0).is_none());
    let stray = FileChunk::new("z".to_string(), 0, vec![1]);
    assert!(down.on_message_received(peer(1), message(MessageType::ChunkData(stray)), 0).is_none());
    let (events, _) = drain(&mut down);
    let reasons: Vec<String> = events
        .iter()
        .map(|e| match e {
            MessagingBehaviourEvent::TransferFailed { reason, .. } => reason.clone(),
            other => panic!("unexpected {:?}", other),
        })
        .collect();
    assert_eq!(
        reasons,
        vec![
            "disk full".to_string(),
            "No active download for file: y".to_string(),
            "No active download for file: z".to_string()
        ]
    );
}

#[test]
fn chunk_read_from_disk_is_sent() {
    let mut up = MessagingBehaviour::new();
    let data: Vec<u8> = (0..(100 * 65536 + 3)).map(|i| (i % 13) as u8).collect();
    let metadata = up.offer_file(&data, "big".to_string(), 0, 0);
    let req = MessageType::ChunkRequest { file_id: metadata.file_id.clone(), chunk_index: 0 };
    match up.on_message_received(peer(9), message(req), 3) {
        Some(DiskTask::ReadChunk { peer: p, file_id, chunk_index, name, offset, len }) => {
            assert_eq!(name, "big");
            let bytes = data[offset as usize..(offset + len) as usize].to_vec();
            up.chunk_read(p, file_id, chunk_index, Ok(bytes), 4);
        }
        other => panic!("expected a read, got {:?}", other),
    }
    let (_, sent) = drain(&mut up);
    assert_eq!(sent.len(), 1);
    match &sent[0].1.msg_type {
        MessageType::ChunkData(c) => assert_eq!(c.data, data[..65536].to_vec()),
        _ => panic!("expected chunk data"),
    }
}

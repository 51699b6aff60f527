use corelink::error::TransferError;
use corelink::file::{split_file_to_chunks, verify_chunk, FileChunk, FileMetadata, DEFAULT_CHUNK_SIZE};
use corelink::manager::{ChunkLookup, FileTransferManager, ReceivePlan, TransferStatus};
use corelink::peer::PeerKey;

/// What delivering one chunk to a downloader came to.
#[derive(Debug, PartialEq)]
enum Delivery {
    Progress(u32, u32),
    Complete(String, String),
    Rejected(u32),
}

/// Takes in a chunk the way the node does, with `disk` standing for the
/// output file: check, write at the offset, record.
fn deliver(
    m: &mut FileTransferManager,
    chunk: &FileChunk,
    disk: &mut Vec<u8>,
) -> Result<Delivery, TransferError> {
    match m.handle_chunk_received(chunk)? {
        ReceivePlan::VerificationFailed { chunk_index } => Ok(Delivery::Rejected(chunk_index)),
        ReceivePlan::Write { offset, .. } => {
            let start = offset as usize;
            let end = start + chunk.data.len();
            if disk.len() < end {
                disk.resize(end, 0);
            }
            disk[start..end].copy_from_slice(&chunk.data);
            match m.mark_chunk_written(&chunk.file_id, chunk.chunk_index)? {
                TransferStatus::ChunkReceived { downloaded, total } => {
                    Ok(Delivery::Progress(downloaded, total))
                }
                TransferStatus::TransferComplete { output_path, name } => {
                    Ok(Delivery::Complete(output_path, name))
                }
            }
        }
    }
}

/// Serves a chunk the way the node does, with `uploaded` standing for the
/// uploaded copy on disk.
fn serve(
    m: &mut FileTransferManager,
    file_id: &String,
    chunk_index: u32,
    uploaded: &[u8],
) -> Option<FileChunk> {
    match m.handle_chunk_request(file_id, chunk_index) {
        ChunkLookup::Unknown => None,
        ChunkLookup::Cached(c) => Some(c),
        ChunkLookup::OnDisk { offset, len, .. } => {
            let start = offset as usize;
            let bytes = uploaded[start..start + len as usize].to_vec();
            m.serve_chunk_from_disk(file_id, chunk_index, bytes)
        }
    }
}

fn split(data: &[u8]) -> (FileMetadata, Vec<FileChunk>) {
    split_file_to_chunks(data, DEFAULT_CHUNK_SIZE, "f-1".to_string(), "test.dat".to_string(), 0)
}

fn peer() -> PeerKey {
    PeerKey::new(vec![0, 36, 8, 1, 18, 32, 7, 7])
}

#[test]
fn test_offer_file() {
    let mut manager = FileTransferManager::new();
    let test_data = b"Hello, World! This is test data for file transfer.";
    let metadata =
        manager.offer_file(test_data, "hello.txt".to_string(), "id-1".to_string(), 0);

    assert_eq!(metadata.size, test_data.len() as u64);
    assert!(metadata.total_chunks > 0);
    assert_eq!(metadata.chunk_hashes.len(), metadata.total_chunks as usize);
    assert_eq!(manager.active_uploads_count(), 1);
}

#[test]
fn test_chunk_request() {
    let mut manager = FileTransferManager::new();
    let test_data = b"Test data for chunk request";
    let metadata = manager.offer_file(test_data, "req.txt".to_string(), "id-2".to_string(), 0);

    let chunk = serve(&mut manager, &metadata.file_id, 0, test_data);
    assert!(chunk.is_some());

    let chunk = chunk.unwrap();
    assert_eq!(chunk.chunk_index, 0);
    assert_eq!(chunk.file_id, metadata.file_id);
    assert!(verify_chunk(&chunk));

    let invalid_chunk = serve(&mut manager, &metadata.file_id, 999, test_data);
    assert!(invalid_chunk.is_none());
}

#[test]
fn test_chunk_received() {
    let mut manager = FileTransferManager::new();
    let test_data = b"Test data for chunk reception";
    let (metadata, chunks) = split(test_data);
    let name = metadata.name.clone();
    let mut disk = vec![0u8; metadata.size as usize];

    let file_id = manager
        .request_file(metadata, "downloads/test.dat".to_string(), peer(), 0)
        .unwrap();

    let mut completed = None;
    for chunk in &chunks {
        match deliver(&mut manager, chunk, &mut disk).unwrap() {
            Delivery::Progress(done, total) => assert!(done <= total),
            Delivery::Complete(from, to) => completed = Some((from, to)),
            Delivery::Rejected(_) => panic!("Chunk verification should not fail"),
        }
    }

    assert_eq!(manager.get_next_chunks_to_request(&file_id, 5), Vec::<u32>::new());
    assert_eq!(manager.active_downloads_count(), 0);
    assert_eq!(completed, Some(("downloads/test.dat".to_string(), name)));
    assert_eq!(disk, test_data.to_vec());
}

#[test]
fn test_full_transfer_lifecycle() {
    let mut uploader = FileTransferManager::new();
    let mut downloader = FileTransferManager::new();
    let test_data: Vec<u8> = (0..200_000).map(|i| (i % 256) as u8).collect();

    let metadata = uploader.offer_file(&test_data, "test.dat".to_string(), "id-3".to_string(), 0);
    assert!(metadata.total_chunks > 1);
    let mut disk = vec![0u8; metadata.size as usize];

    let file_id = downloader
        .request_file(metadata.duplicate(), "downloader/downloads/test.dat".to_string(), peer(), 0)
        .unwrap();

    let mut done = false;
    while !done {
        let chunks_to_request = downloader.get_next_chunks_to_request(&file_id, 5);
        if chunks_to_request.is_empty() {
            break;
        }
        for chunk_index in chunks_to_request {
            let chunk = serve(&mut uploader, &file_id, chunk_index, &test_data)
                .expect("Chunk should be available");
            if let Delivery::Complete(..) = deliver(&mut downloader, &chunk, &mut disk).unwrap() {
                done = true;
                break;
            }
        }
    }

    assert_eq!(downloader.active_downloads_count(), 0);
    assert_eq!(disk.len(), test_data.len());
    assert_eq!(disk, test_data);
}

#[test]
fn test_cancel_download() {
    let mut manager = FileTransferManager::new();
    let (metadata, _) = split(b"Test data");
    let file_id = manager
        .request_file(metadata, "downloads/test.dat".to_string(), peer(), 0)
        .unwrap();

    assert_eq!(manager.active_downloads_count(), 1);

    let partial = manager.cancel_download(&file_id).unwrap();

    assert_eq!(manager.active_downloads_count(), 0);
    assert_eq!(partial, "downloads/test.dat");
}

#[test]
fn cancel_unknown_download_is_not_found() {
    let mut manager = FileTransferManager::new();
    assert_eq!(manager.cancel_download(&"nope".to_string()), Err(TransferError::NotFound));
}

#[test]
fn duplicate_request_is_refused() {
    let mut manager = FileTransferManager::new();
    let (metadata, _) = split(b"some bytes");
    let copy = metadata.duplicate();
    assert!(manager.request_file(metadata, "a".to_string(), peer(), 0).is_ok());
    assert_eq!(
        manager.request_file(copy, "b".to_string(), peer(), 0),
        Err(TransferError::AlreadyExists)
    );
    assert_eq!(manager.active_downloads_count(), 1);
}

#[test]
fn unknown_file_chunk_request_gives_nothing() {
    let mut manager = FileTransferManager::new();
    manager.offer_file(b"abc", "x".to_string(), "id-4".to_string(), 0);
    let unknown = "00000000-0000-0000-0000-000000000000".to_string();
    assert!(matches!(manager.handle_chunk_request(&unknown, 0), ChunkLookup::Unknown));
    assert_eq!(manager.active_uploads_count(), 1);
    assert_eq!(manager.active_downloads_count(), 0);
}

#[test]
fn received_chunk_for_unknown_download_is_not_found() {
    let manager = FileTransferManager::new();
    let chunk = FileChunk::new("ghost".to_string(), 0, vec![1, 2, 3]);
    assert!(matches!(manager.handle_chunk_received(&chunk), Err(TransferError::NotFound)));
}

#[test]
fn received_chunk_past_the_end_is_invalid_input() {
    let mut manager = FileTransferManager::new();
    let (metadata, _) = split(b"tiny");
    manager.request_file(metadata, "o".to_string(), peer(), 0).unwrap();
    let chunk = FileChunk::new("f-1".to_string(), 3, vec![1]);
    assert!(matches!(manager.handle_chunk_received(&chunk), Err(TransferError::InvalidInput)));
}

#[test]
fn tampered_chunk_is_rejected_and_not_written() {
    let mut manager = FileTransferManager::new();
    let data: Vec<u8> = (0..150_000u32).map(|i| (i % 253) as u8).collect();
    let (metadata, chunks) = split(&data);
    assert_eq!(metadata.total_chunks, 3);
    manager.request_file(metadata, "o".to_string(), peer(), 0).unwrap();
    let mut disk = vec![0u8; data.len()];

    let mut flipped = FileChunk {
        file_id: chunks[1].file_id.clone(),
        chunk_index: 1,
        data: chunks[1].data.clone(),
        hash: chunks[1].hash,
    };
    flipped.data[10] ^= 0x01;
    assert_eq!(deliver(&mut manager, &flipped, &mut disk), Ok(Delivery::Rejected(1)));

    // consistent with itself but not with the manifest
    let forged = FileChunk::new("f-1".to_string(), 1, flipped.data.clone());
    assert_eq!(deliver(&mut manager, &forged, &mut disk), Ok(Delivery::Rejected(1)));
    assert!(disk.iter().all(|b| *b == 0));
    assert_eq!(manager.get_next_chunks_to_request(&"f-1".to_string(), 5), vec![0, 1, 2]);
}

#[test]
fn duplicate_delivery_changes_nothing() {
    let mut manager = FileTransferManager::new();
    let data: Vec<u8> = (0..150_000u32).map(|i| (i % 241) as u8).collect();
    let (metadata, chunks) = split(&data);
    manager.request_file(metadata, "o".to_string(), peer(), 0).unwrap();
    let mut disk = vec![0u8; data.len()];

    assert_eq!(deliver(&mut manager, &chunks[1], &mut disk), Ok(Delivery::Progress(1, 3)));
    let snapshot = disk.clone();
    assert_eq!(deliver(&mut manager, &chunks[1], &mut disk), Ok(Delivery::Progress(1, 3)));
    assert_eq!(disk, snapshot);
    assert_eq!(manager.get_next_chunks_to_request(&"f-1".to_string(), 5), vec![0, 2]);
    assert_eq!(deliver(&mut manager, &chunks[2], &mut disk), Ok(Delivery::Progress(2, 3)));
    assert_eq!(
        deliver(&mut manager, &chunks[0], &mut disk),
        Ok(Delivery::Complete("o".to_string(), "test.dat".to_string()))
    );
    assert_eq!(disk, data);
}

#[test]
fn batches_follow_ascending_missing_order() {
    let mut manager = FileTransferManager::new();
    let data = vec![5u8; 8 * 65536 + 1];
    let (metadata, chunks) = split(&data);
    assert_eq!(metadata.total_chunks, 9);
    manager.request_file(metadata, "o".to_string(), peer(), 0).unwrap();
    let id = "f-1".to_string();
    assert_eq!(manager.get_next_chunks_to_request(&id, 5), vec![0, 1, 2, 3, 4]);
    assert_eq!(manager.get_next_chunks_to_request(&id, 0), Vec::<u32>::new());
    let mut disk = vec![0u8; data.len()];
    deliver(&mut manager, &chunks[2], &mut disk).unwrap();
    deliver(&mut manager, &chunks[0], &mut disk).unwrap();
    assert_eq!(manager.get_next_chunks_to_request(&id, 5), vec![1, 3, 4, 5, 6]);
    assert_eq!(manager.get_next_chunks_to_request(&id, 100), vec![1, 3, 4, 5, 6, 7, 8]);
    assert_eq!(manager.get_next_chunks_to_request(&"other".to_string(), 5), Vec::<u32>::new());
}

#[test]
fn served_chunk_is_served_again_from_memory() {
    let mut manager = FileTransferManager::new();
    // 101 chunks: the cache holds 100, so the first one is evicted
    let data: Vec<u8> = (0..(100 * 65536 + 10)).map(|i| (i % 239) as u8).collect();
    let metadata = manager.offer_file(&data, "big.bin".to_string(), "id-5".to_string(), 0);
    assert_eq!(metadata.total_chunks, 101);
    let id = metadata.file_id.clone();

    match manager.handle_chunk_request(&id, 0) {
        ChunkLookup::OnDisk { name, offset, len } => {
            assert_eq!(name, "big.bin");
            assert_eq!(offset, 0);
            assert_eq!(len, 65536);
        }
        other => panic!("expected a disk read, got {:?}", other),
    }
    match manager.handle_chunk_request(&id, 100) {
        ChunkLookup::Cached(c) => assert_eq!(c.data.len(), 10),
        other => panic!("expected a cached chunk, got {:?}", other),
    }

    let first = serve(&mut manager, &id, 0, &data).unwrap();
    assert_eq!(first.data, data[..65536].to_vec());
    // the uploaded copy is gone: the cache still answers
    match manager.handle_chunk_request(&id, 0) {
        ChunkLookup::Cached(again) => {
            assert_eq!(again.data, first.data);
            assert_eq!(again.hash, first.hash);
        }
        other => panic!("expected a cached chunk, got {:?}", other),
    }
}

#[test]
fn last_chunk_read_length() {
    let mut manager = FileTransferManager::new();
    let data: Vec<u8> = (0..(100 * 65536 + 10)).map(|i| (i % 7) as u8).collect();
    let metadata = manager.offer_file(&data, "big.bin".to_string(), "id-6".to_string(), 0);
    // fill the cache with other entries so that the last chunk is evicted
    let other = manager.offer_file(&data[..65536 * 100], "o.bin".to_string(), "id-7".to_string(), 0);
    assert_eq!(other.total_chunks, 100);
    match manager.handle_chunk_request(&metadata.file_id, 100) {
        ChunkLookup::OnDisk { offset, len, .. } => {
            assert_eq!(offset, 100 * 65536);
            assert_eq!(len, 10);
        }
        other => panic!("expected a disk read, got {:?}", other),
    }
}

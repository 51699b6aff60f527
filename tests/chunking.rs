use corelink::digest::calculate_chunk_hash;
use corelink::error::TransferError;
use corelink::file::{
    assemble_chunks, split_file_to_chunks, verify_chunk, write_chunk_to_file, FileChunk,
    FileMetadata, DEFAULT_CHUNK_SIZE,
};
use corelink::transfer::FileTransfer;

fn to_hex(bytes: &[u8]) -> String {
    bytes.iter().map(|b| format!("{:02x}", b)).collect()
}

fn split(data: &[u8], chunk_size: u32) -> (FileMetadata, Vec<FileChunk>) {
    split_file_to_chunks(data, chunk_size, "file-1".to_string(), "data.bin".to_string(), 7)
}

fn copy_chunk(c: &FileChunk) -> FileChunk {
    FileChunk {
        file_id: c.file_id.clone(),
        chunk_index: c.chunk_index,
        data: c.data.clone(),
        hash: c.hash,
    }
}

#[test]
fn test_chunk_hash_calculation() {
    let data = b"Hello, World!";
    let hash1 = calculate_chunk_hash(data);
    let hash2 = calculate_chunk_hash(data);
    assert_eq!(hash1, hash2);

    let different_data = b"Hello, World!!";
    let hash3 = calculate_chunk_hash(different_data);
    assert_ne!(hash1, hash3);
}

#[test]
fn chunk_hash_is_sha256() {
    assert_eq!(
        to_hex(&calculate_chunk_hash(b"abc")),
        "ba7816bf8f01cfea414140de5dae2223b00361a396177a9cb410ff61f20015ad"
    );
    assert_eq!(
        to_hex(&calculate_chunk_hash(b"")),
        "e3b0c44298fc1c149afbf4c8996fb92427ae41e4649b934ca495991b7852b855"
    );
}

#[test]
fn test_chunk_verification() {
    let data = b"Test data".to_vec();
    let chunk = FileChunk::new("test-id".to_string(), 0, data);
    assert!(verify_chunk(&chunk));

    let mut bad_chunk = copy_chunk(&chunk);
    bad_chunk.data.push(0);
    assert!(!verify_chunk(&bad_chunk));
}

#[test]
fn test_split_and_assemble() {
    let test_data = b"This is test data that will be split into chunks and reassembled.";
    let (metadata, chunks) = split(test_data, 10);
    assert_eq!(chunks.len(), metadata.total_chunks as usize);
    assert_eq!(metadata.total_chunks, 7);
    assert_eq!(chunks[6].data.len(), 5);

    for chunk in &chunks {
        assert!(verify_chunk(chunk));
    }

    let output_data = assemble_chunks(&chunks, &metadata).unwrap();
    assert_eq!(output_data, test_data.to_vec());
}

#[test]
fn round_trip_for_many_sizes() {
    let data: Vec<u8> = (0..1000u32).map(|i| (i * 7 % 251) as u8).collect();
    for n in [0usize, 1, 9, 10, 11, 99, 100, 101, 1000] {
        for c in [1u32, 3, 10, 64, 1000, 4096] {
            let (metadata, chunks) = split(&data[..n], c);
            assert_eq!(metadata.size, n as u64);
            assert_eq!(metadata.total_chunks as usize, (n + c as usize - 1) / c as usize);
            assert_eq!(assemble_chunks(&chunks, &metadata).unwrap(), data[..n].to_vec());
        }
    }
}

#[test]
fn empty_file_has_no_chunks() {
    let (metadata, chunks) = split(b"", 10);
    assert_eq!(metadata.total_chunks, 0);
    assert!(chunks.is_empty());
    assert!(metadata.chunk_hashes.is_empty());
    assert_eq!(assemble_chunks(&chunks, &metadata).unwrap(), Vec::<u8>::new());
}

#[test]
fn split_binds_hashes() {
    let data: Vec<u8> = (0..95u8).collect();
    let (metadata, chunks) = split(&data, 20);
    assert_eq!(metadata.file_id, "file-1");
    assert_eq!(metadata.name, "data.bin");
    assert_eq!(metadata.created_at, 7);
    assert_eq!(metadata.chunk_size, 20);
    assert!(metadata.mime_type.is_none());
    for (i, chunk) in chunks.iter().enumerate() {
        assert_eq!(chunk.chunk_index as usize, i);
        assert_eq!(chunk.file_id, "file-1");
        assert_eq!(chunk.data, data[i * 20..(i * 20 + 20).min(95)].to_vec());
        assert_eq!(chunk.hash, calculate_chunk_hash(&chunk.data));
        assert_eq!(metadata.chunk_hashes[i], chunk.hash);
    }
    assert_eq!(chunks[4].data.len(), 15);
}

#[test]
fn assemble_accepts_any_order() {
    let data: Vec<u8> = (0..50u8).collect();
    let (metadata, mut chunks) = split(&data, 8);
    chunks.reverse();
    chunks.swap(1, 3);
    assert_eq!(assemble_chunks(&chunks, &metadata).unwrap(), data);
}

#[test]
fn assemble_rejects_wrong_count() {
    let data: Vec<u8> = (0..50u8).collect();
    let (metadata, mut chunks) = split(&data, 8);
    chunks.pop();
    assert_eq!(assemble_chunks(&chunks, &metadata), Err(TransferError::InvalidInput));
}

#[test]
fn assemble_rejects_duplicate_index() {
    let data: Vec<u8> = (0..50u8).collect();
    let (metadata, mut chunks) = split(&data, 8);
    chunks[2] = copy_chunk(&chunks[1]);
    assert_eq!(assemble_chunks(&chunks, &metadata), Err(TransferError::InvalidData));
}

#[test]
fn assemble_rejects_out_of_range_index() {
    let data: Vec<u8> = (0..50u8).collect();
    let (metadata, mut chunks) = split(&data, 8);
    chunks[0].chunk_index = 40;
    assert_eq!(assemble_chunks(&chunks, &metadata), Err(TransferError::InvalidData));
}

#[test]
fn assemble_rejects_tampered_data() {
    let data: Vec<u8> = (0..50u8).collect();
    let (metadata, mut chunks) = split(&data, 8);
    chunks[3].data[0] ^= 1;
    assert_eq!(assemble_chunks(&chunks, &metadata), Err(TransferError::InvalidData));
}

#[test]
fn assemble_rejects_manifest_mismatch() {
    let data: Vec<u8> = (0..50u8).collect();
    let (metadata, mut chunks) = split(&data, 8);
    let forged = FileChunk::new("file-1".to_string(), 2, vec![9, 9, 9]);
    chunks[2] = forged;
    assert_eq!(assemble_chunks(&chunks, &metadata), Err(TransferError::InvalidData));
}

#[test]
fn write_chunk_gives_offset() {
    let data: Vec<u8> = (0..50u8).collect();
    let (metadata, chunks) = split(&data, 8);
    assert_eq!(write_chunk_to_file(&chunks[0], &metadata), Ok(0));
    assert_eq!(write_chunk_to_file(&chunks[3], &metadata), Ok(24));
    assert_eq!(write_chunk_to_file(&chunks[6], &metadata), Ok(48));
}

#[test]
fn write_chunk_errors() {
    let data: Vec<u8> = (0..50u8).collect();
    let (metadata, chunks) = split(&data, 8);
    let mut tampered = copy_chunk(&chunks[1]);
    tampered.data[2] ^= 0x80;
    assert_eq!(write_chunk_to_file(&tampered, &metadata), Err(TransferError::InvalidData));
    let beyond = FileChunk::new("file-1".to_string(), 7, vec![1, 2]);
    assert_eq!(write_chunk_to_file(&beyond, &metadata), Err(TransferError::InvalidInput));
    let forged = FileChunk::new("file-1".to_string(), 2, vec![1, 2]);
    assert_eq!(write_chunk_to_file(&forged, &metadata), Err(TransferError::InvalidData));
}

#[test]
fn metadata_new_and_mime_type() {
    let metadata = FileMetadata::new("a.txt".to_string(), 70000, vec![[1u8; 32]; 2], 99);
    assert_eq!(metadata.file_id.len(), 36);
    assert_eq!(metadata.file_id.matches('-').count(), 4);
    assert_eq!(metadata.chunk_size, DEFAULT_CHUNK_SIZE);
    assert_eq!(metadata.total_chunks, 2);
    assert_eq!(metadata.created_at, 99);
    let other = FileMetadata::new("a.txt".to_string(), 70000, vec![[1u8; 32]; 2], 99);
    assert_ne!(metadata.file_id, other.file_id);
    let typed = metadata.with_mime_type("text/plain".to_string());
    assert_eq!(typed.mime_type.as_deref(), Some("text/plain"));
    assert_eq!(typed.name, "a.txt");
}

fn progress(t: &FileTransfer) -> f32 {
    let (done, total) = t.progress();
    done as f32 / total as f32
}

#[test]
fn test_file_transfer_progress() {
    let metadata = FileMetadata::new("test.txt".to_string(), 1000, vec![[0u8; 32]; 10], 0);
    let mut transfer = FileTransfer::new(metadata, "out/test.txt".to_string(), 0);

    assert_eq!(progress(&transfer), 0.0);
    assert!(!transfer.is_complete());

    transfer.mark_chunk_downloaded(0);
    assert_eq!(progress(&transfer), 0.1);

    for i in 1..10 {
        transfer.mark_chunk_downloaded(i);
    }

    assert_eq!(progress(&transfer), 1.0);
    assert!(transfer.is_complete());
}

#[test]
fn marking_keeps_partition_and_order() {
    let metadata = FileMetadata::new("t".to_string(), 500, vec![[0u8; 32]; 5], 0);
    let mut transfer = FileTransfer::new(metadata, "o".to_string(), 3);
    assert_eq!(transfer.missing_chunks, vec![0, 1, 2, 3, 4]);
    transfer.mark_chunk_downloaded(3);
    transfer.mark_chunk_downloaded(1);
    assert_eq!(transfer.missing_chunks, vec![0, 2, 4]);
    let mut done: Vec<u32> = transfer.downloaded_chunks.iter().copied().collect();
    done.sort();
    assert_eq!(done, vec![1, 3]);
    assert_eq!(transfer.progress(), (2, 5));
    transfer.mark_chunk_downloaded(1);
    assert_eq!(transfer.progress(), (2, 5));
    assert_eq!(transfer.missing_chunks, vec![0, 2, 4]);
    transfer.mark_chunk_downloaded(9);
    assert_eq!(transfer.progress(), (2, 5));
    assert_eq!(transfer.missing_chunks, vec![0, 2, 4]);
}

#[test]
fn progress_never_decreases() {
    let metadata = FileMetadata::new("t".to_string(), 800, vec![[0u8; 32]; 8], 0);
    let mut transfer = FileTransfer::new(metadata, "o".to_string(), 0);
    let mut last = 0;
    for i in [5u32, 5, 2, 7, 2, 0, 1, 3, 4, 6, 6] {
        transfer.mark_chunk_downloaded(i);
        let (done, total) = transfer.progress();
        assert!(done >= last && done <= total);
        assert_eq!(transfer.is_complete(), done == total);
        last = done;
    }
    assert!(transfer.is_complete());
    assert!(transfer.missing_chunks.is_empty());
}

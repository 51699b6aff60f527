//! The per-node registry of offered files and active downloads, with the
//! cache of recently served chunks. Disk work stays with the caller: the
//! manager says what to read or write and is told what happened.
use vstd::prelude::*;

use crate::cache::{lru_capacity, lru_contents, lru_get, lru_new, lru_put, CacheKey, ChunkLru};
use crate::digest::sha256_of;
use crate::error::TransferError;
use crate::file::{
    copy_bytes, copy_string, chunk_count, chunk_of, describes, lemma_chunk_start, lemma_split_describes,
    split_file_to_chunks, verify_chunk, write_chunk_to_file, write_offset_spec, FileChunk,
    FileMetadata, DEFAULT_CHUNK_SIZE,
};
use crate::peer::PeerKey;
use crate::registry::{
    keyed_map, keys_distinct, lemma_keyed_index, lemma_keyed_len, lemma_keyed_push,
    lemma_keyed_remove,
};
use crate::transfer::{lemma_downloaded_bound, marked, peer_views, FileTransfer};

verus! {

/// How many chunks the cache holds at most.
pub const CHUNK_CACHE_CAPACITY: usize = 100;

/// An offered file's key: its id.
pub open spec fn upload_key() -> spec_fn(FileMetadata) -> Seq<char> {
    |m: FileMetadata| m.file_id@
}

/// A download's key: the id of the file it fetches.
pub open spec fn download_key() -> spec_fn(FileTransfer) -> Seq<char> {
    |t: FileTransfer| t.metadata.file_id@
}

/// Length of chunk `i` of the file `meta` describes: the chunk size, or what
/// is left for the last chunk.
pub open spec fn chunk_len(meta: FileMetadata, i: int) -> int {
    if i == meta.total_chunks - 1 {
        meta.size - i * meta.chunk_size
    } else {
        meta.chunk_size as int
    }
}

/// Where a requested chunk comes from.
#[derive(Debug)]
pub enum ChunkLookup {
    /// The file is not offered here, or has no chunk of that index.
    Unknown,
    /// The chunk, served from memory.
    Cached(FileChunk),
    /// Read `len` bytes at `offset` of the uploaded copy called `name`, then
    /// hand them to `serve_chunk_from_disk`.
    OnDisk { name: String, offset: u64, len: u64 },
}

/// What to do with a received chunk.
#[derive(Debug)]
pub enum ReceivePlan {
    /// The chunk fails its hash checks: nothing is written.
    VerificationFailed { chunk_index: u32 },
    /// Write the chunk's data at `offset` of `output_path`, then report it
    /// with `mark_chunk_written`.
    Write { output_path: String, offset: u64 },
}

/// Progress of a download after a chunk was written.
#[derive(Debug)]
pub enum TransferStatus {
    /// `downloaded` of `total` chunks are in; the progress is their ratio.
    ChunkReceived { downloaded: u32, total: u32 },
    /// The last chunk is in: move `output_path` to the completed file `name`.
    TransferComplete { output_path: String, name: String },
}

/// Offered files, active downloads and the chunk cache of one node.
pub struct FileTransferManager {
    active_uploads: Vec<FileMetadata>,
    active_downloads: Vec<FileTransfer>,
    chunk_cache: ChunkLru,
}

/// `t` is a fresh download of `metadata` into `output_path` from `peer`.
pub open spec fn fresh_download(
    t: FileTransfer,
    metadata: FileMetadata,
    output_path: Seq<char>,
    started_at: u64,
    peer: Seq<u8>,
) -> bool {
    &&& t.wf()
    &&& t.metadata == metadata
    &&& t.output_path@ == output_path
    &&& t.started_at == started_at
    &&& t.downloaded_chunks@ == Set::<u32>::empty()
    &&& t.missing_chunks@ == Seq::new(metadata.total_chunks as nat, |i: int| i as u32)
    &&& peer_views(t.peers@) == seq![peer]
}

/// What answering a request for chunk `i` of `id` gives, and leaves: nothing
/// held changes; the answer is nothing for an unknown file or index, the
/// cached bytes where the cache has them, or else where to read them.
pub open spec fn chunk_request_post(
    before: FileTransferManager,
    id: Seq<char>,
    i: u32,
    r: ChunkLookup,
    after: FileTransferManager,
) -> bool {
    &&& after.uploads() == before.uploads()
    &&& after.downloads() == before.downloads()
    &&& after.cache() == before.cache()
    &&& match r {
        ChunkLookup::Unknown => !before.offers_chunk(id, i),
        ChunkLookup::Cached(c) => {
            &&& before.offers_chunk(id, i)
            &&& before.cache().contains_key((id, i))
            &&& c.file_id@ == id
            &&& c.chunk_index == i
            &&& c.data@ == before.cache()[(id, i)]
            &&& c.self_consistent()
        },
        ChunkLookup::OnDisk { name, offset, len } => {
            &&& before.offers_chunk(id, i)
            &&& !before.cache().contains_key((id, i))
            &&& name == before.uploads()[id].name
            &&& offset == i * before.uploads()[id].chunk_size
            &&& len == chunk_len(before.uploads()[id], i as int)
        },
    }
}

/// What serving chunk `i` of `id` read from disk as `data` gives, and leaves:
/// the chunk, now cached, or nothing for an unknown file or index.
pub open spec fn disk_serve_post(
    before: FileTransferManager,
    id: Seq<char>,
    i: u32,
    data: Seq<u8>,
    r: Option<FileChunk>,
    after: FileTransferManager,
) -> bool {
    &&& after.uploads() == before.uploads()
    &&& after.downloads() == before.downloads()
    &&& match r {
        None => !before.offers_chunk(id, i) && after.cache() == before.cache(),
        Some(c) => {
            &&& before.offers_chunk(id, i)
            &&& c.file_id@ == id
            &&& c.chunk_index == i
            &&& c.data@ == data
            &&& c.self_consistent()
            &&& after.cache().contains_key((id, i))
            &&& after.cache()[(id, i)] == data
            &&& forall|k: CacheKey| #[trigger]
                after.cache().contains_key(k) && k != (id, i) ==> before.cache().contains_key(k)
                    && after.cache()[k] == before.cache()[k]
        },
    }
}

/// What the first step of taking in `chunk` gives.
pub open spec fn receive_post(
    m: FileTransferManager,
    chunk: FileChunk,
    r: Result<ReceivePlan, TransferError>,
) -> bool {
    let id = chunk.file_id@;
    if !m.downloads().contains_key(id) {
        r == Err::<ReceivePlan, TransferError>(TransferError::NotFound)
    } else {
        match write_offset_spec(chunk, m.downloads()[id].metadata) {
            Ok(offset) => r matches Ok(ReceivePlan::Write { output_path, offset: o }) && o == offset
                && output_path == m.downloads()[id].output_path,
            Err(TransferError::InvalidInput) => r == Err::<ReceivePlan, TransferError>(
                TransferError::InvalidInput,
            ),
            Err(_) => r matches Ok(ReceivePlan::VerificationFailed { chunk_index })
                && chunk_index == chunk.chunk_index,
        }
    }
}

/// What starting a download gives, and leaves: refused while one for the
/// same file is active; otherwise a fresh download under the file's id.
pub open spec fn request_post(
    before: FileTransferManager,
    metadata: FileMetadata,
    output_path: Seq<char>,
    peer: Seq<u8>,
    started_at: u64,
    r: Result<String, TransferError>,
    after: FileTransferManager,
) -> bool {
    &&& after.uploads() == before.uploads()
    &&& after.cache() == before.cache()
    &&& match r {
        Err(e) => {
            &&& e == TransferError::AlreadyExists
            &&& before.downloads().contains_key(metadata.file_id@)
            &&& after.downloads() == before.downloads()
        },
        Ok(id) => {
            &&& id@ == metadata.file_id@
            &&& !before.downloads().contains_key(id@)
            &&& after.downloads().contains_key(id@)
            &&& fresh_download(after.downloads()[id@], metadata, output_path, started_at, peer)
            &&& after.downloads().remove(id@) == before.downloads()
        },
    }
}

/// What recording a written chunk `i` of `id` gives, and leaves.
pub open spec fn mark_post(
    before: FileTransferManager,
    id: Seq<char>,
    i: u32,
    r: Result<TransferStatus, TransferError>,
    after: FileTransferManager,
) -> bool {
    &&& after.uploads() == before.uploads()
    &&& after.cache() == before.cache()
    &&& if !before.downloads().contains_key(id) {
        r == Err::<TransferStatus, TransferError>(TransferError::NotFound) && after.downloads()
            == before.downloads()
    } else {
        match r {
            Ok(TransferStatus::ChunkReceived { downloaded, total }) => {
                &&& after.downloads().contains_key(id)
                &&& marked(before.downloads()[id], after.downloads()[id], i)
                &&& after.downloads().remove(id) == before.downloads().remove(id)
                &&& downloaded == after.downloads()[id].downloaded_count()
                &&& total == after.downloads()[id].total()
                &&& downloaded < total
            },
            Ok(TransferStatus::TransferComplete { output_path, name }) => {
                &&& after.downloads() == before.downloads().remove(id)
                &&& output_path == before.downloads()[id].output_path
                &&& name == before.downloads()[id].metadata.name
                &&& exists|t: FileTransfer|
                    t.wf() && marked(before.downloads()[id], t, i) && t.downloaded_count()
                        == t.total()
            },
            Err(_) => false,
        }
    }
}

/// What offering `data` as `name` under `id` gives, and leaves: its
/// manifest, registered; the cache holds, besides what it held, only chunks
/// of this file with their bytes.
pub open spec fn offer_post(
    before: FileTransferManager,
    data: Seq<u8>,
    name: Seq<char>,
    id: Seq<char>,
    created_at: u64,
    r: FileMetadata,
    after: FileTransferManager,
) -> bool {
    &&& describes(r, data)
    &&& r.file_id@ == id
    &&& r.name@ == name
    &&& r.chunk_size == DEFAULT_CHUNK_SIZE
    &&& r.mime_type is None
    &&& r.created_at == created_at
    &&& after.uploads().contains_key(id)
    &&& after.uploads()[id].equiv(r)
    &&& after.uploads().remove(id) == before.uploads().remove(id)
    &&& after.downloads() == before.downloads()
    &&& forall|k: CacheKey| #[trigger]
        after.cache().contains_key(k) ==> (before.cache().contains_key(k) && after.cache()[k]
            == before.cache()[k]) || (k.0 == id && k.1 < r.total_chunks && after.cache()[k]
            == chunk_of(data, DEFAULT_CHUNK_SIZE as int, k.1 as int))
}

/// Recording written chunks moves a download's progress only forward, never
/// past one: while chunks remain, the number downloaded does not drop and
/// stays below the total; with the last one it reaches the total.
pub proof fn lemma_download_progress(
    m0: FileTransferManager,
    m1: FileTransferManager,
    id: Seq<char>,
    i: u32,
    r: Result<TransferStatus, TransferError>,
)
    requires
        m0.wf(),
        m1.wf(),
        m0.downloads().contains_key(id),
        mark_post(m0, id, i, r, m1),
    ensures
        r matches Ok(TransferStatus::ChunkReceived { downloaded, total }) ==> {
            &&& m0.downloads()[id].downloaded_count() <= downloaded
            &&& downloaded < total
            &&& total == m0.downloads()[id].total()
        },
        r matches Ok(TransferStatus::TransferComplete { .. }) ==> exists|t: FileTransfer|
            t.wf() && crate::transfer::marked(m0.downloads()[id], t, i) && t.downloaded_count()
                == t.total(),
{
    m0.lemma_entries_wf();
    m1.lemma_entries_wf();
    if r is Ok && r->Ok_0 is ChunkReceived {
        crate::transfer::lemma_progress_monotone(m0.downloads()[id], m1.downloads()[id], i);
    }
}

/// A chunk once served, from the cache or read from disk, is served again
/// from the cache with the same data and hash: the second answer involves
/// no disk, so it holds even where the uploaded copy is gone.
pub proof fn lemma_cache_coherency(
    m0: FileTransferManager,
    m1: FileTransferManager,
    m2: FileTransferManager,
    id: Seq<char>,
    i: u32,
    first: FileChunk,
    second: ChunkLookup,
)
    requires
        chunk_request_post(m0, id, i, ChunkLookup::Cached(first), m1) || exists|data: Seq<u8>|
            disk_serve_post(m0, id, i, data, Some(first), m1),
        chunk_request_post(m1, id, i, second, m2),
    ensures
        second matches ChunkLookup::Cached(c) && c.data@ == first.data@ && c.hash@ == first.hash@,
{
}

/// A chunk of a download whose hash disagrees with its data or with the
/// manifest is rejected, and nothing is to be written for it.
pub proof fn lemma_corruption_rejected(
    m: FileTransferManager,
    chunk: FileChunk,
    r: Result<ReceivePlan, TransferError>,
)
    requires
        m.downloads().contains_key(chunk.file_id@),
        chunk.chunk_index < m.downloads()[chunk.file_id@].total(),
        !(chunk.self_consistent() && chunk.matches_manifest(m.downloads()[chunk.file_id@].metadata)),
        receive_post(m, chunk, r),
    ensures
        r matches Ok(ReceivePlan::VerificationFailed { chunk_index }) && chunk_index == chunk.chunk_index,
{
}

impl FileTransferManager {
    /// Offered files by id.
    pub closed spec fn uploads(&self) -> Map<Seq<char>, FileMetadata> {
        keyed_map(self.active_uploads@, upload_key())
    }

    /// Active downloads by file id.
    pub closed spec fn downloads(&self) -> Map<Seq<char>, FileTransfer> {
        keyed_map(self.active_downloads@, download_key())
    }

    /// What the chunk cache holds.
    pub closed spec fn cache(&self) -> Map<CacheKey, Seq<u8>> {
        lru_contents(self.chunk_cache)
    }

    /// Keys are distinct, offered manifests and downloads are well formed,
    /// and the cache has its fixed capacity.
    pub closed spec fn wf(&self) -> bool {
        &&& keys_distinct(self.active_uploads@, upload_key())
        &&& keys_distinct(self.active_downloads@, download_key())
        &&& forall|i: int|
            0 <= i < self.active_uploads@.len() ==> (#[trigger] self.active_uploads@[i]).wf()
        &&& forall|i: int|
            0 <= i < self.active_downloads@.len() ==> (#[trigger] self.active_downloads@[i]).wf()
        &&& lru_capacity(self.chunk_cache) == CHUNK_CACHE_CAPACITY
    }

    /// Every offered manifest and every download is well formed.
    pub proof fn lemma_entries_wf(&self)
        requires
            self.wf(),
        ensures
            forall|id: Seq<char>| #[trigger]
                self.uploads().contains_key(id) ==> self.uploads()[id].wf(),
            forall|id: Seq<char>| #[trigger]
                self.downloads().contains_key(id) ==> self.downloads()[id].wf(),
    {
        assert forall|id: Seq<char>| #[trigger] self.uploads().contains_key(id) implies self.uploads()[id].wf() by {
            let i = choose|i: int|
                0 <= i < self.active_uploads@.len() && upload_key()(self.active_uploads@[i]) == id;
            lemma_keyed_index(self.active_uploads@, upload_key(), i);
        }
        assert forall|id: Seq<char>| #[trigger] self.downloads().contains_key(id) implies self.downloads()[id].wf() by {
            let i = choose|i: int|
                0 <= i < self.active_downloads@.len() && download_key()(self.active_downloads@[i])
                    == id;
            lemma_keyed_index(self.active_downloads@, download_key(), i);
        }
    }

    /// A manager with nothing offered, nothing downloading and an empty cache.
    pub fn new() -> (r: FileTransferManager)
        ensures
            r.wf(),
            r.uploads().is_empty(),
            r.downloads().is_empty(),
            r.cache().is_empty(),
    {
        let r = FileTransferManager {
            active_uploads: Vec::new(),
            active_downloads: Vec::new(),
            chunk_cache: lru_new(CHUNK_CACHE_CAPACITY),
        };
        assert(r.uploads() =~= Map::empty());
        assert(r.downloads() =~= Map::empty());
        r
    }

    /// Position of the offered file `file_id`, if it is offered.
    fn find_upload(&self, file_id: &String) -> (r: Option<usize>)
        requires
            self.wf(),
        ensures
            match r {
                Some(i) => i < self.active_uploads@.len() && self.active_uploads@[i as int].file_id@
                    == file_id@ && self.uploads().contains_key(file_id@) && self.uploads()[file_id@]
                    == self.active_uploads@[i as int],
                None => !self.uploads().contains_key(file_id@),
            },
    {
        let mut i: usize = 0;
        while i < self.active_uploads.len()
            invariant
                self.wf(),
                0 <= i <= self.active_uploads@.len(),
                forall|j: int| 0 <= j < i ==> self.active_uploads@[j].file_id@ != file_id@,
            decreases self.active_uploads@.len() - i,
        {
            if self.active_uploads[i].file_id == *file_id {
                proof {
                    lemma_keyed_index(self.active_uploads@, upload_key(), i as int);
                }
                return Some(i);
            }
            i = i + 1;
        }
        None
    }

    /// Position of the download of `file_id`, if there is one.
    fn find_download(&self, file_id: &String) -> (r: Option<usize>)
        requires
            self.wf(),
        ensures
            match r {
                Some(i) => i < self.active_downloads@.len()
                    && self.active_downloads@[i as int].metadata.file_id@ == file_id@
                    && self.downloads().contains_key(file_id@) && self.downloads()[file_id@]
                    == self.active_downloads@[i as int],
                None => !self.downloads().contains_key(file_id@),
            },
    {
        let mut i: usize = 0;
        while i < self.active_downloads.len()
            invariant
                self.wf(),
                0 <= i <= self.active_downloads@.len(),
                forall|j: int| 0 <= j < i ==> self.active_downloads@[j].metadata.file_id@ != file_id@,
            decreases self.active_downloads@.len() - i,
        {
            if self.active_downloads[i].metadata.file_id == *file_id {
                proof {
                    lemma_keyed_index(self.active_downloads@, download_key(), i as int);
                }
                return Some(i);
            }
            i = i + 1;
        }
        None
    }

    /// Offers the file with contents `data` under `name`: splits it into
    /// chunks of the default size, puts every chunk in the cache so that it
    /// can be served from memory at once, and registers it under `file_id`
    /// (replacing an offer with the same id).
    pub fn offer_file(&mut self, data: &[u8], name: String, file_id: String, created_at: u64) -> (r:
        FileMetadata)
        requires
            old(self).wf(),
            chunk_count(data@.len() as int, DEFAULT_CHUNK_SIZE as int) <= u32::MAX,
        ensures
            final(self).wf(),
            offer_post(*old(self), data@, name@, file_id@, created_at, r, *final(self)),
    {
        let (metadata, chunks) = split_file_to_chunks(
            data,
            DEFAULT_CHUNK_SIZE,
            file_id,
            name,
            created_at,
        );
        proof {
            lemma_split_describes(data@, metadata, chunks@);
        }
        let ghost cache0 = self.cache();
        let mut j: usize = 0;
        while j < chunks.len()
            invariant
                crate::file::is_split_of(data@, metadata, chunks@),
                self.wf(),
                self.active_uploads == old(self).active_uploads,
                self.active_downloads == old(self).active_downloads,
                metadata.chunk_size == DEFAULT_CHUNK_SIZE,
                0 <= j <= chunks@.len(),
                lru_capacity(self.chunk_cache) == CHUNK_CACHE_CAPACITY,
                forall|k: CacheKey| #[trigger]
                    lru_contents(self.chunk_cache).contains_key(k) ==> (cache0.contains_key(k)
                        && lru_contents(self.chunk_cache)[k] == cache0[k]) || (k.0
                        == metadata.file_id@ && k.1 < j && lru_contents(self.chunk_cache)[k]
                        == chunk_of(data@, DEFAULT_CHUNK_SIZE as int, k.1 as int)),
            decreases chunks@.len() - j,
        {
            let chunk = &chunks[j];
            let bytes = crate::file::copy_bytes(&chunk.data);
            lru_put(&mut self.chunk_cache, metadata.file_id.clone(), chunk.chunk_index, bytes);
            j = j + 1;
        }
        let id = metadata.file_id.clone();
        match self.find_upload(&id) {
            Some(i) => {
                proof {
                    lemma_keyed_remove(self.active_uploads@, upload_key(), i as int);
                }
                self.active_uploads.remove(i);
            },
            None => {},
        }
        let ghost before = self.active_uploads@;
        let r = metadata.duplicate();
        proof {
            lemma_keyed_push(before, upload_key(), metadata);
        }
        self.active_uploads.push(metadata);
        proof {
            assert(self.active_uploads@ == before.push(metadata));
            assert forall|i: int| 0 <= i < self.active_uploads@.len() implies (#[trigger] self.active_uploads@[i]).wf() by {
                if i < before.len() {
                    assert(self.active_uploads@[i] == before[i]);
                }
            }
            assert(self.uploads().remove(file_id@) =~= old(self).uploads().remove(file_id@));
            assert forall|i: int| 0 <= i < r.total_chunks implies #[trigger] r.hash_at(i) == sha256_of(
                chunk_of(data@, r.chunk_size as int, i),
            ) by {
                assert(r.hash_at(i) == metadata.hash_at(i));
            }
        }
        r
    }

    /// The file `file_id` is offered here and has a chunk `chunk_index`.
    pub open spec fn offers_chunk(&self, file_id: Seq<char>, chunk_index: u32) -> bool {
        &&& self.uploads().contains_key(file_id)
        &&& chunk_index < self.uploads()[file_id].total_chunks
    }

    /// Answers a request for a chunk of an offered file: nothing for an
    /// unknown file or index; the cached bytes where the cache has them (no
    /// disk is involved then); otherwise where to read them in the uploaded
    /// copy. Nothing the manager holds changes.
    pub fn handle_chunk_request(&mut self, file_id: &String, chunk_index: u32) -> (r: ChunkLookup)
        requires
            old(self).wf(),
        ensures
            final(self).wf(),
            final(self).uploads() == old(self).uploads(),
            final(self).downloads() == old(self).downloads(),
            chunk_request_post(*old(self), file_id@, chunk_index, r, *final(self)),
    {
        let i = match self.find_upload(file_id) {
            Some(i) => i,
            None => {
                return ChunkLookup::Unknown;
            },
        };
        if chunk_index >= self.active_uploads[i].total_chunks {
            return ChunkLookup::Unknown;
        }
        match lru_get(&mut self.chunk_cache, file_id, chunk_index) {
            Some(data) => {
                return ChunkLookup::Cached(FileChunk::new(copy_string(file_id), chunk_index, data));
            },
            None => {},
        }
        let meta = &self.active_uploads[i];
        proof {
            assert(meta.wf());
            lemma_chunk_start(meta.size as int, meta.chunk_size as int, chunk_index as int);
        }
        let offset: u64 = chunk_index as u64 * meta.chunk_size as u64;
        let len: u64 = if chunk_index == meta.total_chunks - 1 {
            meta.size - offset
        } else {
            meta.chunk_size as u64
        };
        ChunkLookup::OnDisk { name: copy_string(&meta.name), offset, len }
    }

    /// Serves a chunk read from the uploaded copy: caches its bytes and gives
    /// the chunk with its digest. Nothing for an unknown file or index.
    pub fn serve_chunk_from_disk(&mut self, file_id: &String, chunk_index: u32, data: Vec<u8>) -> (r:
        Option<FileChunk>)
        requires
            old(self).wf(),
        ensures
            final(self).wf(),
            final(self).uploads() == old(self).uploads(),
            final(self).downloads() == old(self).downloads(),
            disk_serve_post(*old(self), file_id@, chunk_index, data@, r, *final(self)),
    {
        let i = match self.find_upload(file_id) {
            Some(i) => i,
            None => {
                return None;
            },
        };
        if chunk_index >= self.active_uploads[i].total_chunks {
            return None;
        }
        lru_put(&mut self.chunk_cache, copy_string(file_id), chunk_index, copy_bytes(&data));
        Some(FileChunk::new(copy_string(file_id), chunk_index, data))
    }

    /// Starts downloading the file `metadata` describes into `output_path`
    /// from `peer`, with every chunk missing; refused while a download of the
    /// same file is active.
    pub fn request_file(
        &mut self,
        metadata: FileMetadata,
        output_path: String,
        peer: PeerKey,
        started_at: u64,
    ) -> (r: Result<String, TransferError>)
        requires
            old(self).wf(),
        ensures
            final(self).wf(),
            final(self).uploads() == old(self).uploads(),
            final(self).cache() == old(self).cache(),
            request_post(*old(self), metadata, output_path@, peer@, started_at, r, *final(self)),
    {
        if self.find_download(&metadata.file_id).is_some() {
            return Err(TransferError::AlreadyExists);
        }
        let id = copy_string(&metadata.file_id);
        let ghost m = metadata;
        let mut transfer = FileTransfer::new(metadata, output_path, started_at);
        transfer.add_peer(peer);
        let ghost before = self.active_downloads@;
        proof {
            lemma_keyed_push(before, download_key(), transfer);
        }
        self.active_downloads.push(transfer);
        proof {
            assert(self.active_downloads@ == before.push(transfer));
            assert forall|i: int| 0 <= i < self.active_downloads@.len() implies (#[trigger] self.active_downloads@[i]).wf() by {
                if i < before.len() {
                    assert(self.active_downloads@[i] == before[i]);
                }
            }
            assert(peer_views(transfer.peers@) =~= seq![peer@]);
            assert(self.downloads().remove(id@) =~= old(self).downloads());
        }
        Ok(id)
    }

    /// First step of taking in a received chunk: an error for a file with no
    /// active download; a verification failure, with nothing to write, where
    /// the chunk's hash disagrees with its data or with the manifest; an
    /// error for an index past the last chunk; otherwise where to write it.
    pub fn handle_chunk_received(&self, chunk: &FileChunk) -> (r: Result<ReceivePlan, TransferError>)
        requires
            self.wf(),
        ensures
            receive_post(*self, *chunk, r),
    {
        let i = match self.find_download(&chunk.file_id) {
            Some(i) => i,
            None => {
                return Err(TransferError::NotFound);
            },
        };
        let transfer = &self.active_downloads[i];
        if !verify_chunk(chunk) {
            return Ok(ReceivePlan::VerificationFailed { chunk_index: chunk.chunk_index });
        }
        match write_chunk_to_file(chunk, &transfer.metadata) {
            Ok(offset) => Ok(ReceivePlan::Write { output_path: copy_string(&transfer.output_path), offset }),
            Err(TransferError::InvalidInput) => Err(TransferError::InvalidInput),
            Err(_) => Ok(ReceivePlan::VerificationFailed { chunk_index: chunk.chunk_index }),
        }
    }

    /// Second step: the chunk `chunk_index` of `file_id` has been written.
    /// Records it; when it was the last one, the download ends and the file
    /// is to be moved to its final place; otherwise reports the progress.
    pub fn mark_chunk_written(&mut self, file_id: &String, chunk_index: u32) -> (r: Result<
        TransferStatus,
        TransferError,
    >)
        requires
            old(self).wf(),
        ensures
            final(self).wf(),
            final(self).uploads() == old(self).uploads(),
            final(self).cache() == old(self).cache(),
            mark_post(*old(self), file_id@, chunk_index, r, *final(self)),
    {
        let i = match self.find_download(file_id) {
            Some(i) => i,
            None => {
                return Err(TransferError::NotFound);
            },
        };
        let ghost s0 = self.active_downloads@;
        proof {
            lemma_keyed_remove(s0, download_key(), i as int);
        }
        let mut transfer = self.active_downloads.remove(i);
        proof {
            assert(self.active_downloads@ == s0.remove(i as int));
            assert forall|j: int| 0 <= j < self.active_downloads@.len() implies (#[trigger] self.active_downloads@[j]).wf() by {
                if j < i {
                    assert(self.active_downloads@[j] == s0[j]);
                } else {
                    assert(self.active_downloads@[j] == s0[j + 1]);
                }
            }
        }
        transfer.mark_chunk_downloaded(chunk_index);
        if transfer.is_complete() {
            return Ok(TransferStatus::TransferComplete {
                output_path: transfer.output_path,
                name: transfer.metadata.name,
            });
        }
        proof {
            lemma_downloaded_bound(&transfer);
        }
        let downloaded = transfer.downloaded_chunks.len() as u32;
        let total = transfer.metadata.total_chunks;
        let ghost s1 = self.active_downloads@;
        proof {
            lemma_keyed_push(s1, download_key(), transfer);
        }
        self.active_downloads.push(transfer);
        proof {
            assert(self.active_downloads@ == s1.push(transfer));
            assert forall|j: int| 0 <= j < self.active_downloads@.len() implies (#[trigger] self.active_downloads@[j]).wf() by {
                if j < s1.len() {
                    assert(self.active_downloads@[j] == s1[j]);
                }
            }
            assert(self.downloads().remove(file_id@) =~= old(self).downloads().remove(file_id@));
        }
        Ok(TransferStatus::ChunkReceived { downloaded, total })
    }

    /// The first `batch_size` missing chunks of the download of `file_id`, in
    /// ascending order; none where there is no such download.
    pub fn get_next_chunks_to_request(&self, file_id: &String, batch_size: usize) -> (r: Vec<u32>)
        requires
            self.wf(),
        ensures
            !self.downloads().contains_key(file_id@) ==> r@.len() == 0,
            self.downloads().contains_key(file_id@) ==> r@ == self.downloads()[file_id@].missing_chunks@.take(
                if batch_size < self.downloads()[file_id@].missing_chunks@.len() {
                    batch_size as int
                } else {
                    self.downloads()[file_id@].missing_chunks@.len() as int
                },
            ),
    {
        let mut out: Vec<u32> = Vec::new();
        let i = match self.find_download(file_id) {
            Some(i) => i,
            None => {
                return out;
            },
        };
        let missing = &self.active_downloads[i].missing_chunks;
        let n = if batch_size < missing.len() {
            batch_size
        } else {
            missing.len()
        };
        let mut j: usize = 0;
        while j < n
            invariant
                n <= missing@.len(),
                0 <= j <= n,
                out@ == missing@.take(j as int),
            decreases n - j,
        {
            out.push(missing[j]);
            j = j + 1;
            assert(out@ =~= missing@.take(j as int));
        }
        out
    }

    /// Ends the download of `file_id` and gives the path of its partial
    /// output, which the caller deletes; an error where there is no such
    /// download.
    pub fn cancel_download(&mut self, file_id: &String) -> (r: Result<String, TransferError>)
        requires
            old(self).wf(),
        ensures
            final(self).wf(),
            final(self).uploads() == old(self).uploads(),
            final(self).cache() == old(self).cache(),
            final(self).downloads() == old(self).downloads().remove(file_id@),
            match r {
                Ok(path) => old(self).downloads().contains_key(file_id@) && path == old(self).downloads()[file_id@].output_path,
                Err(e) => e == TransferError::NotFound && !old(self).downloads().contains_key(
                    file_id@,
                ),
            },
    {
        let i = match self.find_download(file_id) {
            Some(i) => i,
            None => {
                assert(old(self).downloads().remove(file_id@) =~= old(self).downloads());
                return Err(TransferError::NotFound);
            },
        };
        let ghost s0 = self.active_downloads@;
        proof {
            lemma_keyed_remove(s0, download_key(), i as int);
        }
        let transfer = self.active_downloads.remove(i);
        proof {
            assert(self.active_downloads@ == s0.remove(i as int));
            assert forall|j: int| 0 <= j < self.active_downloads@.len() implies (#[trigger] self.active_downloads@[j]).wf() by {
                if j < i {
                    assert(self.active_downloads@[j] == s0[j]);
                } else {
                    assert(self.active_downloads@[j] == s0[j + 1]);
                }
            }
        }
        Ok(transfer.output_path)
    }

    /// Number of active downloads.
    pub fn active_downloads_count(&self) -> (r: usize)
        requires
            self.wf(),
        ensures
            r == self.downloads().dom().len(),
    {
        proof {
            lemma_keyed_len(self.active_downloads@, download_key());
        }
        self.active_downloads.len()
    }

    /// Number of offered files.
    pub fn active_uploads_count(&self) -> (r: usize)
        requires
            self.wf(),
        ensures
            r == self.uploads().dom().len(),
    {
        proof {
            lemma_keyed_len(self.active_uploads@, upload_key());
        }
        self.active_uploads.len()
    }

}

} // verus!

//! Files as chunks: metadata, chunks, splitting, assembling and verifying.
use vstd::prelude::*;

use vstd::arithmetic::div_mod::{lemma_fundamental_div_mod, lemma_mod_pos_bound};
use vstd::arithmetic::mul::lemma_mul_inequality;

use crate::digest::{calculate_chunk_hash, sha256_of};
use crate::error::TransferError;

verus! {

/// Chunk size used when a file is offered: 64 KiB.
pub const DEFAULT_CHUNK_SIZE: u32 = 65536;

/// Relies on uuid's `Uuid::new_v4` and its hyphenated display: a random
/// identifier, written as 36 characters.
#[verifier::external_body]
pub(crate) fn new_file_id() -> (r: String)
    ensures
        r@.len() == 36,
{
    uuid::Uuid::new_v4().to_string()
}

/// Number of chunks of size `c` that cover `n` bytes: the ceiling of `n / c`.
pub open spec fn chunk_count(n: int, c: int) -> int {
    if c <= 0 {
        0
    } else if n % c == 0 {
        n / c
    } else {
        n / c + 1
    }
}

/// The bytes of chunk `i` of `data` in chunks of size `c`: from `i * c` up to
/// `i * c + c`, cut at the end of the data.
pub open spec fn chunk_of(data: Seq<u8>, c: int, i: int) -> Seq<u8> {
    let start = i * c;
    let end = if start + c < data.len() {
        start + c
    } else {
        data.len() as int
    };
    data.subrange(start, end)
}

/// The data of each chunk of `data`, in order.
pub open spec fn split_spec(data: Seq<u8>, c: int) -> Seq<Seq<u8>> {
    Seq::new(chunk_count(data.len() as int, c) as nat, |i: int| chunk_of(data, c, i))
}

/// The parts laid end to end.
pub open spec fn concat(parts: Seq<Seq<u8>>) -> Seq<u8>
    decreases parts.len(),
{
    if parts.len() == 0 {
        Seq::empty()
    } else {
        concat(parts.drop_last()) + parts.last()
    }
}

/// Description of a file offered for transfer, with its manifest of chunk hashes.
#[derive(Debug)]
pub struct FileMetadata {
    pub file_id: String,
    pub name: String,
    pub size: u64,
    pub chunk_size: u32,
    pub total_chunks: u32,
    pub chunk_hashes: Vec<[u8; 32]>,
    pub mime_type: Option<String>,
    pub created_at: u64,
}

impl FileMetadata {
    /// The size, chunk size, chunk count and manifest agree.
    pub open spec fn wf(&self) -> bool {
        &&& self.chunk_size > 0
        &&& self.total_chunks == chunk_count(self.size as int, self.chunk_size as int)
        &&& self.chunk_hashes@.len() == self.total_chunks
    }

    /// Metadata for a file of `size` bytes with the given manifest, in chunks
    /// of the default size, under a fresh random id.
    pub fn new(name: String, size: u64, chunk_hashes: Vec<[u8; 32]>, created_at: u64) -> (r:
        FileMetadata)
        requires
            chunk_hashes@.len() <= u32::MAX,
        ensures
            r.file_id@.len() == 36,
            r.name == name,
            r.size == size,
            r.chunk_size == DEFAULT_CHUNK_SIZE,
            r.total_chunks == chunk_hashes@.len(),
            r.chunk_hashes == chunk_hashes,
            r.mime_type is None,
            r.created_at == created_at,
    {
        let total_chunks = chunk_hashes.len() as u32;
        FileMetadata {
            file_id: new_file_id(),
            name,
            size,
            chunk_size: DEFAULT_CHUNK_SIZE,
            total_chunks,
            chunk_hashes,
            mime_type: None,
            created_at,
        }
    }

    /// The same description: equal fields, and manifests with equal entries.
    pub open spec fn equiv(&self, other: FileMetadata) -> bool {
        &&& self.file_id == other.file_id
        &&& self.name == other.name
        &&& self.size == other.size
        &&& self.chunk_size == other.chunk_size
        &&& self.total_chunks == other.total_chunks
        &&& self.chunk_hashes@ == other.chunk_hashes@
        &&& self.mime_type == other.mime_type
        &&& self.created_at == other.created_at
    }

    /// A copy of the metadata.
    pub fn duplicate(&self) -> (r: FileMetadata)
        ensures
            r.equiv(*self),
    {
        let mut hashes: Vec<[u8; 32]> = Vec::new();
        let mut i: usize = 0;
        while i < self.chunk_hashes.len()
            invariant
                0 <= i <= self.chunk_hashes@.len(),
                hashes@ == self.chunk_hashes@.take(i as int),
            decreases self.chunk_hashes@.len() - i,
        {
            hashes.push(self.chunk_hashes[i]);
            i = i + 1;
            assert(hashes@ =~= self.chunk_hashes@.take(i as int));
        }
        assert(hashes@ =~= self.chunk_hashes@);
        let mime_type = match &self.mime_type {
            Some(m) => Some(copy_string(m)),
            None => None,
        };
        FileMetadata {
            file_id: copy_string(&self.file_id),
            name: copy_string(&self.name),
            size: self.size,
            chunk_size: self.chunk_size,
            total_chunks: self.total_chunks,
            chunk_hashes: hashes,
            mime_type,
            created_at: self.created_at,
        }
    }

    /// The manifest entry for chunk `i`, as a byte sequence.
    pub open spec fn hash_at(&self, i: int) -> Seq<u8> {
        self.chunk_hashes@[i]@
    }

    /// The same metadata with its MIME type set.
    pub fn with_mime_type(self, mime_type: String) -> (r: FileMetadata)
        ensures
            r == (FileMetadata { mime_type: Some(mime_type), ..self }),
    {
        let mut m = self;
        m.mime_type = Some(mime_type);
        m
    }
}

/// One contiguous piece of a file, with the SHA-256 digest it claims.
#[derive(Debug)]
pub struct FileChunk {
    pub file_id: String,
    pub chunk_index: u32,
    pub data: Vec<u8>,
    pub hash: [u8; 32],
}

impl FileChunk {
    /// A chunk of `data` whose hash is the SHA-256 digest of `data`.
    pub fn new(file_id: String, chunk_index: u32, data: Vec<u8>) -> (r: FileChunk)
        ensures
            r.file_id@ == file_id@,
            r.chunk_index == chunk_index,
            r.data@ == data@,
            r.hash@ == sha256_of(data@),
    {
        let hash = calculate_chunk_hash(data.as_slice());
        FileChunk { file_id, chunk_index, data, hash }
    }

    /// Whether the chunk's own hash is the digest of its data.
    pub open spec fn self_consistent(&self) -> bool {
        self.hash@ == sha256_of(self.data@)
    }

    /// Whether the chunk's hash is the manifest's entry for its index.
    pub open spec fn matches_manifest(&self, meta: FileMetadata) -> bool {
        &&& self.chunk_index < meta.chunk_hashes@.len()
        &&& meta.hash_at(self.chunk_index as int) == self.hash@
    }
}

/// Whether a chunk's data matches the hash it carries.
pub fn verify_chunk(chunk: &FileChunk) -> (r: bool)
    ensures
        r == chunk.self_consistent(),
{
    let calculated = calculate_chunk_hash(chunk.data.as_slice());
    digests_equal(&calculated, &chunk.hash)
}

/// Byte-wise equality of two digests.
pub fn digests_equal(a: &[u8; 32], b: &[u8; 32]) -> (r: bool)
    ensures
        r == (a@ == b@),
{
    let mut i: usize = 0;
    while i < 32
        invariant
            0 <= i <= 32,
            forall|j: int| 0 <= j < i ==> a@[j] == b@[j],
        decreases 32 - i,
    {
        if a[i] != b[i] {
            return false;
        }
        i = i + 1;
    }
    assert(a@ =~= b@);
    true
}

/// `chunks` and `meta` are what splitting `data` gives: one chunk per index,
/// in order, each holding its slice of `data` and its digest, which the
/// manifest repeats.
pub open spec fn is_split_of(data: Seq<u8>, meta: FileMetadata, chunks: Seq<FileChunk>) -> bool {
    let c = meta.chunk_size as int;
    &&& c > 0
    &&& meta.size == data.len()
    &&& meta.total_chunks == chunk_count(data.len() as int, c)
    &&& chunks.len() == meta.total_chunks
    &&& meta.chunk_hashes@.len() == meta.total_chunks
    &&& forall|i: int|
        0 <= i < chunks.len() ==> {
            &&& (#[trigger] chunks[i]).chunk_index == i
            &&& chunks[i].file_id@ == meta.file_id@
            &&& chunks[i].data@ == chunk_of(data, c, i)
            &&& chunks[i].hash@ == sha256_of(chunks[i].data@)
            &&& meta.hash_at(i) == chunks[i].hash@
        }
}

/// The chunk count is the ceiling of `n / c`.
pub proof fn lemma_chunk_count(n: int, c: int)
    requires
        n >= 0,
        c > 0,
    ensures
        chunk_count(n, c) >= 0,
        chunk_count(n, c) * c >= n,
        chunk_count(n, c) > 0 ==> (chunk_count(n, c) - 1) * c < n,
        n == 0 ==> chunk_count(n, c) == 0,
{
    let q = n / c;
    let r = n % c;
    lemma_fundamental_div_mod(n, c);
    lemma_mod_pos_bound(n, c);
    assert(q >= 0) by (nonlinear_arith)
        requires
            n == c * q + r,
            0 <= r < c,
            n >= 0,
            c > 0,
    ;
    assert(q * c == c * q) by (nonlinear_arith);
    assert((q + 1) * c == c * q + c) by (nonlinear_arith);
    assert((q - 1) * c == c * q - c) by (nonlinear_arith);
    if n == 0 {
        assert(q == 0) by (nonlinear_arith)
            requires
                0 == c * q + r,
                0 <= r < c,
                q >= 0,
        ;
    }
}

/// Each chunk but the ones past the end starts inside the data.
pub proof fn lemma_chunk_start(n: int, c: int, i: int)
    requires
        n >= 0,
        c > 0,
        0 <= i < chunk_count(n, c),
    ensures
        0 <= i * c < n,
        i * c + c <= chunk_count(n, c) * c,
{
    lemma_chunk_count(n, c);
    let q = chunk_count(n, c);
    lemma_mul_inequality(i, q - 1, c);
    assert(0 <= i * c) by (nonlinear_arith)
        requires
            i >= 0,
            c > 0,
    ;
    assert(i * c + c == (i + 1) * c) by (nonlinear_arith);
    lemma_mul_inequality(i + 1, q, c);
}

/// The first `k` chunks, laid end to end, are the first `k * c` bytes.
proof fn lemma_concat_prefix(data: Seq<u8>, c: int, k: int)
    requires
        c > 0,
        0 <= k <= chunk_count(data.len() as int, c),
    ensures
        concat(split_spec(data, c).take(k)) == data.subrange(
            0,
            if k * c < data.len() {
                k * c
            } else {
                data.len() as int
            },
        ),
    decreases k,
{
    let n = data.len() as int;
    let s = split_spec(data, c);
    if k == 0 {
        assert(s.take(0) =~= Seq::<Seq<u8>>::empty());
        assert(data.subrange(0, 0) =~= Seq::<u8>::empty());
    } else {
        lemma_concat_prefix(data, c, k - 1);
        lemma_chunk_start(n, c, k - 1);
        assert(s.take(k).drop_last() =~= s.take(k - 1));
        assert(s.take(k).last() == chunk_of(data, c, k - 1));
        assert(concat(s.take(k)) == concat(s.take(k - 1)) + chunk_of(data, c, k - 1));
        assert((k - 1) * c + c == k * c) by (nonlinear_arith);
        let end = if k * c < n {
            k * c
        } else {
            n
        };
        assert(data.subrange(0, (k - 1) * c) + data.subrange((k - 1) * c, end) =~= data.subrange(
            0,
            end,
        ));
    }
}

/// Laying the chunks of `data` end to end gives `data` back.
pub proof fn lemma_split_concat(data: Seq<u8>, c: int)
    requires
        c > 0,
    ensures
        concat(split_spec(data, c)) == data,
{
    let n = data.len() as int;
    let q = chunk_count(n, c);
    lemma_chunk_count(n, c);
    lemma_concat_prefix(data, c, q);
    assert(split_spec(data, c).take(q) =~= split_spec(data, c));
    assert(data.subrange(0, n) =~= data);
}

/// A copy of the bytes.
pub fn copy_bytes(v: &Vec<u8>) -> (r: Vec<u8>)
    ensures
        r@ == v@,
{
    let r = copy_range(v.as_slice(), 0, v.len());
    assert(v@.subrange(0, v@.len() as int) =~= v@);
    r
}

/// A copy of the string.
pub fn copy_string(s: &String) -> (r: String)
    ensures
        r == *s,
{
    s.clone()
}

/// The bytes of `data` from `start` up to `end`, copied.
pub fn copy_range(data: &[u8], start: usize, end: usize) -> (r: Vec<u8>)
    requires
        start <= end <= data@.len(),
    ensures
        r@ == data@.subrange(start as int, end as int),
{
    let mut out: Vec<u8> = Vec::new();
    let mut i: usize = start;
    while i < end
        invariant
            start <= i <= end <= data@.len(),
            out@ == data@.subrange(start as int, i as int),
        decreases end - i,
    {
        out.push(data[i]);
        i = i + 1;
        assert(out@ =~= data@.subrange(start as int, i as int));
    }
    out
}

/// Splits the contents of a file into chunks of `chunk_size` bytes (the last
/// one shorter where the size is not a multiple), each with its SHA-256
/// digest, and describes them in metadata under the given id, name and time.
pub fn split_file_to_chunks(
    data: &[u8],
    chunk_size: u32,
    file_id: String,
    name: String,
    created_at: u64,
) -> (r: (FileMetadata, Vec<FileChunk>))
    requires
        chunk_size > 0,
        chunk_count(data@.len() as int, chunk_size as int) <= u32::MAX,
    ensures
        is_split_of(data@, r.0, r.1@),
        r.0.file_id@ == file_id@,
        r.0.name@ == name@,
        r.0.chunk_size == chunk_size,
        r.0.mime_type is None,
        r.0.created_at == created_at,
        r.0.wf(),
{
    let n = data.len();
    let c = chunk_size as usize;
    let n64 = n as u64;
    let c64 = chunk_size as u64;
    let total: u32 = if n % c == 0 {
        (n / c) as u32
    } else {
        (n / c + 1) as u32
    };
    proof {
        lemma_chunk_count(n as int, c as int);
    }
    let mut chunks: Vec<FileChunk> = Vec::new();
    let mut chunk_hashes: Vec<[u8; 32]> = Vec::new();
    let mut i: u32 = 0;
    while i < total
        invariant
            n == data@.len(),
            n64 == n,
            c == chunk_size,
            c64 == chunk_size,
            c > 0,
            total == chunk_count(n as int, c as int),
            0 <= i <= total,
            chunks@.len() == i,
            chunk_hashes@.len() == i,
            forall|j: int|
                0 <= j < i ==> {
                    &&& (#[trigger] chunks@[j]).chunk_index == j
                    &&& chunks@[j].file_id@ == file_id@
                    &&& chunks@[j].data@ == chunk_of(data@, c as int, j)
                    &&& chunks@[j].hash@ == sha256_of(chunks@[j].data@)
                    &&& chunk_hashes@[j]@ == chunks@[j].hash@
                },
        decreases total - i,
    {
        proof {
            lemma_chunk_start(n as int, c as int, i as int);
        }
        let start64: u64 = i as u64 * c64;
        let end64: u64 = if n64 - start64 > c64 {
            start64 + c64
        } else {
            n64
        };
        let piece = copy_range(data, start64 as usize, end64 as usize);
        let hash = calculate_chunk_hash(piece.as_slice());
        chunk_hashes.push(hash);
        chunks.push(FileChunk { file_id: file_id.clone(), chunk_index: i, data: piece, hash });
        i = i + 1;
    }
    let metadata = FileMetadata {
        file_id,
        name,
        size: n64,
        chunk_size,
        total_chunks: total,
        chunk_hashes,
        mime_type: None,
        created_at,
    };
    (metadata, chunks)
}

/// The chunk indices are exactly `0 .. n`, each once.
pub open spec fn indices_are_permutation(chunks: Seq<FileChunk>, n: int) -> bool {
    &&& forall|j: int| 0 <= j < chunks.len() ==> (#[trigger] chunks[j]).chunk_index < n
    &&& forall|j: int, k: int|
        0 <= j < chunks.len() && 0 <= k < chunks.len() && j != k ==> (#[trigger] chunks[j]).chunk_index
            != (#[trigger] chunks[k]).chunk_index
    &&& forall|i: int| 0 <= i < n ==> #[trigger] has_index(chunks, i)
}

/// Some chunk has index `i`.
pub open spec fn has_index(chunks: Seq<FileChunk>, i: int) -> bool {
    exists|j: int| 0 <= j < chunks.len() && (#[trigger] chunks[j]).chunk_index == i
}

/// The position in `chunks` of the chunk with index `i`.
pub open spec fn position_of(chunks: Seq<FileChunk>, i: int) -> int {
    choose|j: int| 0 <= j < chunks.len() && (#[trigger] chunks[j]).chunk_index == i
}

/// The chunks' data in order of chunk index, laid end to end.
pub open spec fn data_in_index_order(chunks: Seq<FileChunk>, n: int) -> Seq<u8> {
    concat(Seq::new(n as nat, |i: int| chunks[position_of(chunks, i)].data@))
}

/// What assembling `chunks` under `meta` gives: the wrong number of chunks
/// is invalid input; indices that are not each of `0 .. total_chunks` once,
/// or a chunk whose hash disagrees with the manifest or with its own data,
/// is invalid data; otherwise the file's bytes.
pub open spec fn assemble_spec(chunks: Seq<FileChunk>, meta: FileMetadata) -> Result<
    Seq<u8>,
    TransferError,
> {
    let n = meta.total_chunks as int;
    if chunks.len() != n {
        Err(TransferError::InvalidInput)
    } else if !indices_are_permutation(chunks, n) || exists|j: int|
        0 <= j < chunks.len() && !((#[trigger] chunks[j]).matches_manifest(meta)
            && chunks[j].self_consistent()) {
        Err(TransferError::InvalidData)
    } else {
        Ok(data_in_index_order(chunks, n))
    }
}

/// Assembling what splitting gives yields the bytes that were split.
pub proof fn lemma_round_trip(data: Seq<u8>, meta: FileMetadata, chunks: Seq<FileChunk>)
    requires
        is_split_of(data, meta, chunks),
    ensures
        assemble_spec(chunks, meta) == Ok::<Seq<u8>, TransferError>(data),
{
    let n = meta.total_chunks as int;
    let c = meta.chunk_size as int;
    assert forall|i: int| 0 <= i < n implies #[trigger] has_index(chunks, i) by {
        assert(chunks[i].chunk_index == i);
    }
    assert(indices_are_permutation(chunks, n));
    assert forall|i: int| 0 <= i < n implies position_of(chunks, i) == i by {
        let j = position_of(chunks, i);
        assert(chunks[i].chunk_index == i);
        assert(chunks[j].chunk_index == j);
    }
    assert(Seq::new(n as nat, |i: int| chunks[position_of(chunks, i)].data@) =~= split_spec(
        data,
        c,
    ));
    lemma_split_concat(data, c);
}

/// Puts chunks received in any order back into the file they came from,
/// checking each against the manifest and its own hash; gives the file's
/// bytes, which the caller writes out.
pub fn assemble_chunks(chunks: &[FileChunk], metadata: &FileMetadata) -> (r: Result<
    Vec<u8>,
    TransferError,
>)
    ensures
        match r {
            Ok(bytes) => assemble_spec(chunks@, *metadata) == Ok::<Seq<u8>, TransferError>(bytes@),
            Err(e) => assemble_spec(chunks@, *metadata) == Err::<Seq<u8>, TransferError>(e),
        },
{
    let ghost cs = chunks@;
    let len = chunks.len();
    if len != metadata.total_chunks as usize {
        return Err(TransferError::InvalidInput);
    }
    let n = len;
    // pos[i] is the position of the chunk with index i, or n while none is seen.
    let mut pos: Vec<usize> = Vec::new();
    while pos.len() < n
        invariant
            pos@.len() <= n,
            forall|i: int| 0 <= i < pos@.len() ==> pos@[i] == n,
        decreases n - pos@.len(),
    {
        pos.push(n);
    }
    let mut j: usize = 0;
    while j < n
        invariant
            n == cs.len(),
            n == metadata.total_chunks,
            cs == chunks@,
            pos@.len() == n,
            0 <= j <= n,
            forall|k: int| 0 <= k < j ==> (#[trigger] cs[k]).chunk_index < n,
            forall|k: int| 0 <= k < j ==> pos@[(#[trigger] cs[k]).chunk_index as int] == k,
            forall|i: int|
                0 <= i < n ==> #[trigger] pos@[i] == n || (pos@[i] < j && cs[pos@[i] as int].chunk_index
                    == i),
        decreases n - j,
    {
        let idx = chunks[j].chunk_index as usize;
        if idx >= n {
            assert(!indices_are_permutation(cs, n as int)) by {
                assert(cs[j as int].chunk_index >= n);
            }
            return Err(TransferError::InvalidData);
        }
        if pos[idx] != n {
            assert(!indices_are_permutation(cs, n as int)) by {
                let k = pos@[idx as int] as int;
                assert(cs[k].chunk_index == cs[j as int].chunk_index);
            }
            return Err(TransferError::InvalidData);
        }
        pos.set(idx, j);
        j = j + 1;
    }
    assert forall|a: int, b: int|
        0 <= a < cs.len() && 0 <= b < cs.len() && a != b implies (#[trigger] cs[a]).chunk_index
        != (#[trigger] cs[b]).chunk_index by {
        assert(pos@[cs[a].chunk_index as int] == a);
        assert(pos@[cs[b].chunk_index as int] == b);
    }
    let mut out: Vec<u8> = Vec::new();
    let mut i: usize = 0;
    while i < n
        invariant
            n == cs.len(),
            n == metadata.total_chunks,
            cs == chunks@,
            pos@.len() == n,
            0 <= i <= n,
            forall|k: int| 0 <= k < n ==> (#[trigger] cs[k]).chunk_index < n,
            forall|k: int| 0 <= k < n ==> pos@[(#[trigger] cs[k]).chunk_index as int] == k,
            forall|a: int, b: int|
                0 <= a < cs.len() && 0 <= b < cs.len() && a != b ==> (#[trigger] cs[a]).chunk_index
                    != (#[trigger] cs[b]).chunk_index,
            forall|k: int|
                0 <= k < n ==> #[trigger] pos@[k] == n || (pos@[k] < n && cs[pos@[k] as int].chunk_index
                    == k),
            forall|k: int|
                0 <= k < i ==> #[trigger] pos@[k] < n && cs[pos@[k] as int].matches_manifest(*metadata)
                    && cs[pos@[k] as int].self_consistent(),
            out@ == concat(Seq::new(i as nat, |k: int| cs[pos@[k] as int].data@)),
        decreases n - i,
    {
        let p = pos[i];
        if p == n {
            assert(!indices_are_permutation(cs, n as int)) by {
                if has_index(cs, i as int) {
                    let k = choose|k: int| 0 <= k < cs.len() && (#[trigger] cs[k]).chunk_index == i;
                    assert(pos@[cs[k].chunk_index as int] == k);
                }
            }
            return Err(TransferError::InvalidData);
        }
        let chunk = &chunks[p];
        if i >= metadata.chunk_hashes.len() || !digests_equal(&chunk.hash, &metadata.chunk_hashes[i])
            || !verify_chunk(chunk) {
            assert(!(cs[p as int].matches_manifest(*metadata) && cs[p as int].self_consistent()));
            return Err(TransferError::InvalidData);
        }
        let ghost before = out@;
        out.extend_from_slice(chunk.data.as_slice());
        proof {
            let f = |k: int| cs[pos@[k] as int].data@;
            assert(Seq::new((i + 1) as nat, f).drop_last() =~= Seq::new(i as nat, f));
            assert(out@ =~= before + cs[p as int].data@);
        }
        i = i + 1;
    }
    proof {
        assert(indices_are_permutation(cs, n as int)) by {
            assert forall|k: int| 0 <= k < n implies #[trigger] has_index(cs, k) by {
                assert(pos@[k] < n);
                assert(cs[pos@[k] as int].chunk_index == k);
            }
        }
        assert forall|k: int| 0 <= k < n implies position_of(cs, k) == pos@[k] as int by {
            let q = position_of(cs, k);
            assert(cs[pos@[k] as int].chunk_index == k);
            assert(has_index(cs, k));
            assert(cs[q].chunk_index == k);
        }
        assert(Seq::new(n as nat, |k: int| cs[pos@[k] as int].data@) =~= Seq::new(
            n as nat,
            |k: int| cs[position_of(cs, k)].data@,
        ));
        assert forall|j: int| 0 <= j < cs.len() implies (#[trigger] cs[j]).matches_manifest(*metadata)
            && cs[j].self_consistent() by {
            let k = cs[j].chunk_index as int;
            assert(pos@[k] == j);
        }
    }
    Ok(out)
}

/// `meta` is a well-formed manifest of `data`: its size, and the digest of
/// each chunk in order.
pub open spec fn describes(meta: FileMetadata, data: Seq<u8>) -> bool {
    &&& meta.wf()
    &&& meta.size == data.len()
    &&& forall|i: int|
        0 <= i < meta.total_chunks ==> #[trigger] meta.hash_at(i) == sha256_of(
            chunk_of(data, meta.chunk_size as int, i),
        )
}

/// Splitting gives a manifest that describes the data.
pub proof fn lemma_split_describes(data: Seq<u8>, meta: FileMetadata, chunks: Seq<FileChunk>)
    requires
        is_split_of(data, meta, chunks),
    ensures
        describes(meta, data),
{
    assert forall|i: int| 0 <= i < meta.total_chunks implies #[trigger] meta.hash_at(i) == sha256_of(
        chunk_of(data, meta.chunk_size as int, i),
    ) by {
        assert(chunks[i].chunk_index == i);
    }
}

/// What checking a chunk for an incremental write gives: a hash that
/// disagrees with the data is invalid data; an index past the last chunk is
/// invalid input; a hash that disagrees with the manifest is invalid data;
/// otherwise the byte offset of the chunk in the file.
pub open spec fn write_offset_spec(chunk: FileChunk, meta: FileMetadata) -> Result<int, TransferError> {
    if !chunk.self_consistent() {
        Err(TransferError::InvalidData)
    } else if chunk.chunk_index >= meta.total_chunks {
        Err(TransferError::InvalidInput)
    } else if !chunk.matches_manifest(meta) {
        Err(TransferError::InvalidData)
    } else {
        Ok(chunk.chunk_index * meta.chunk_size)
    }
}

/// Checks a chunk for writing on its own at its place in the output file and
/// gives the byte offset `chunk_index * chunk_size` at which it goes; the
/// caller writes the data there, creating the file if needed and not
/// truncating it.
pub fn write_chunk_to_file(chunk: &FileChunk, metadata: &FileMetadata) -> (r: Result<
    u64,
    TransferError,
>)
    ensures
        match r {
            Ok(offset) => write_offset_spec(*chunk, *metadata) == Ok::<int, TransferError>(
                offset as int,
            ),
            Err(e) => write_offset_spec(*chunk, *metadata) == Err::<int, TransferError>(e),
        },
{
    if !verify_chunk(chunk) {
        return Err(TransferError::InvalidData);
    }
    if chunk.chunk_index >= metadata.total_chunks {
        return Err(TransferError::InvalidInput);
    }
    let i = chunk.chunk_index as usize;
    if i >= metadata.chunk_hashes.len() || !digests_equal(&chunk.hash, &metadata.chunk_hashes[i]) {
        return Err(TransferError::InvalidData);
    }
    let a = chunk.chunk_index as u64;
    let b = metadata.chunk_size as u64;
    assert(a * b <= 0xFFFF_FFFFu64 * 0xFFFF_FFFFu64) by (nonlinear_arith)
        requires
            a <= 0xFFFF_FFFFu64,
            b <= 0xFFFF_FFFFu64,
    ;
    Ok(a * b)
}

} // verus!

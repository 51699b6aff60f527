//! The state of one download: which chunks have arrived and which are missing.
use vstd::prelude::*;

use std::collections::HashSet;
use vstd::set_lib::{lemma_int_range, lemma_len_subset, lemma_map_size, set_int_range};

use crate::file::FileMetadata;
use crate::peer::PeerKey;

verus! {

broadcast use vstd::std_specs::hash::group_hash_axioms;

/// A download in progress.
#[derive(Debug)]
pub struct FileTransfer {
    pub metadata: FileMetadata,
    pub downloaded_chunks: HashSet<u32>,
    /// Missing chunk indices, ascending: the order in which they are requested.
    pub missing_chunks: Vec<u32>,
    pub output_path: String,
    pub started_at: u64,
    pub peers: Vec<PeerKey>,
}

impl FileTransfer {
    /// Number of chunks of the file.
    pub open spec fn total(&self) -> int {
        self.metadata.total_chunks as int
    }

    /// Downloaded and missing indices partition `0 .. total`, and the missing
    /// ones are kept in ascending order.
    pub open spec fn wf(&self) -> bool {
        &&& forall|x: u32| #[trigger] self.downloaded_chunks@.contains(x) ==> x < self.total()
        &&& forall|i: int| 0 <= i < self.missing_chunks@.len() ==> #[trigger] self.missing_chunks@[i] < self.total()
        &&& forall|i: int, j: int|
            0 <= i < j < self.missing_chunks@.len() ==> #[trigger] self.missing_chunks@[i]
                < #[trigger] self.missing_chunks@[j]
        &&& forall|x: u32|
            x < self.total() ==> (#[trigger] self.downloaded_chunks@.contains(x)
                <==> !self.missing_chunks@.contains(x))
    }

    /// How many chunks have arrived: the progress is this over `total`.
    pub open spec fn downloaded_count(&self) -> int {
        self.downloaded_chunks@.len() as int
    }

    /// A fresh download of `metadata` into `output_path`: nothing downloaded,
    /// every chunk missing, in ascending order.
    pub fn new(metadata: FileMetadata, output_path: String, started_at: u64) -> (r: FileTransfer)
        ensures
            r.wf(),
            r.metadata == metadata,
            r.output_path == output_path,
            r.started_at == started_at,
            r.downloaded_chunks@ == Set::<u32>::empty(),
            r.missing_chunks@ == Seq::new(metadata.total_chunks as nat, |i: int| i as u32),
            r.peers@.len() == 0,
    {
        let total = metadata.total_chunks;
        let mut missing: Vec<u32> = Vec::new();
        let mut i: u32 = 0;
        while i < total
            invariant
                0 <= i <= total,
                missing@ == Seq::new(i as nat, |k: int| k as u32),
            decreases total - i,
        {
            missing.push(i);
            i = i + 1;
            assert(missing@ =~= Seq::new(i as nat, |k: int| k as u32));
        }
        let r = FileTransfer {
            metadata,
            downloaded_chunks: HashSet::new(),
            missing_chunks: missing,
            output_path,
            started_at,
            peers: Vec::new(),
        };
        assert forall|x: u32| x < r.total() implies (#[trigger] r.downloaded_chunks@.contains(x)
            <==> !r.missing_chunks@.contains(x)) by {
            assert(r.missing_chunks@[x as int] == x);
        }
        r
    }

    /// Records that chunk `chunk_index` has arrived. Indices outside the file
    /// change nothing; recording the same chunk twice changes nothing more.
    pub fn mark_chunk_downloaded(&mut self, chunk_index: u32)
        requires
            old(self).wf(),
        ensures
            final(self).wf(),
            marked(*old(self), *final(self), chunk_index),
            final(self).metadata == old(self).metadata,
            final(self).output_path == old(self).output_path,
            final(self).started_at == old(self).started_at,
            final(self).peers == old(self).peers,
    {
        if chunk_index >= self.metadata.total_chunks {
            return;
        }
        self.downloaded_chunks.insert(chunk_index);
        {
            let ghost old_missing = self.missing_chunks@;
            let ghost keep = other_than(chunk_index);
            let mut kept: Vec<u32> = Vec::new();
            let mut i: usize = 0;
            let n = self.missing_chunks.len();
            while i < n
                invariant
                    n == old_missing.len(),
                    self.missing_chunks@ == old_missing,
                    keep == other_than(chunk_index),
                    0 <= i <= n,
                    forall|a: int, b: int|
                        0 <= a < b < old_missing.len() ==> #[trigger] old_missing[a]
                            < #[trigger] old_missing[b],
                    kept@ == old_missing.take(i as int).filter(keep),
                    forall|a: int, b: int|
                        0 <= a < b < kept@.len() ==> #[trigger] kept@[a] < #[trigger] kept@[b],
                decreases n - i,
            {
                let x = self.missing_chunks[i];
                proof {
                    assert(old_missing.take(i + 1) =~= old_missing.take(i as int).push(x));
                    old_missing.take(i as int).lemma_filter_push(x, keep);
                }
                if x != chunk_index {
                    proof {
                        assert forall|a: int| 0 <= a < kept@.len() implies #[trigger] kept@[a] < x by {
                            assert(kept@.contains(kept@[a]));
                            old_missing.take(i as int).lemma_filter_contains_rev(keep, kept@[a]);
                        }
                    }
                    kept.push(x);
                }
                i = i + 1;
            }
            proof {
                assert(old_missing.take(n as int) =~= old_missing);
            }
            self.missing_chunks = kept;
            proof {
                let m = self.missing_chunks@;
                broadcast use vstd::seq_lib::group_filter_ensures;
                assert forall|x: u32| #[trigger] m.contains(x) <==> old_missing.contains(x) && x != chunk_index by {
                    if m.contains(x) {
                        old_missing.lemma_filter_contains_rev(keep, x);
                        let a = choose|a: int| 0 <= a < m.len() && m[a] == x;
                        assert(keep(m[a]));
                    }
                    if old_missing.contains(x) && x != chunk_index {
                        let b = choose|b: int| 0 <= b < old_missing.len() && old_missing[b] == x;
                        assert(keep(old_missing[b]));
                    }
                }
                assert forall|i: int| 0 <= i < m.len() implies #[trigger] m[i] < self.total() by {
                    assert(m.contains(m[i]));
                }
            }
        }
    }

    /// Adds `peer` to the sources of the download unless it is one already.
    pub fn add_peer(&mut self, peer: PeerKey)
        ensures
            final(self).metadata == old(self).metadata,
            final(self).downloaded_chunks == old(self).downloaded_chunks,
            final(self).missing_chunks == old(self).missing_chunks,
            final(self).output_path == old(self).output_path,
            final(self).started_at == old(self).started_at,
            peer_views(final(self).peers@) == if peer_views(old(self).peers@).contains(peer@) {
                peer_views(old(self).peers@)
            } else {
                peer_views(old(self).peers@).push(peer@)
            },
    {
        let mut i: usize = 0;
        let n = self.peers.len();
        while i < n
            invariant
                n == self.peers@.len(),
                0 <= i <= n,
                forall|j: int| 0 <= j < i ==> self.peers@[j]@ != peer@,
            decreases n - i,
        {
            if self.peers[i].same(&peer) {
                assert(peer_views(self.peers@)[i as int] == peer@);
                return;
            }
            i = i + 1;
        }
        assert(!peer_views(self.peers@).contains(peer@)) by {
            if peer_views(self.peers@).contains(peer@) {
                let j = choose|j: int| 0 <= j < n && peer_views(self.peers@)[j] == peer@;
                assert(self.peers@[j]@ == peer@);
            }
        }
        let ghost before = self.peers@;
        self.peers.push(peer);
        assert(peer_views(self.peers@) =~= peer_views(before).push(peer@));
    }

    /// Progress as the pair (chunks downloaded, chunks in all); its ratio is
    /// at most one.
    pub fn progress(&self) -> (r: (u32, u32))
        requires
            self.wf(),
        ensures
            r.0 == self.downloaded_count(),
            r.1 == self.total(),
            r.0 <= r.1,
    {
        proof {
            lemma_downloaded_bound(self);
        }
        (self.downloaded_chunks.len() as u32, self.metadata.total_chunks)
    }

    /// Whether every chunk has arrived.
    pub fn is_complete(&self) -> (r: bool)
        requires
            self.wf(),
        ensures
            r == (self.downloaded_count() == self.total()),
    {
        proof {
            lemma_downloaded_bound(self);
        }
        self.downloaded_chunks.len() == self.metadata.total_chunks as usize
    }
}

/// The peers as byte sequences.
pub open spec fn peer_views(peers: Seq<PeerKey>) -> Seq<Seq<u8>> {
    peers.map_values(|p: PeerKey| p@)
}

/// The indices other than `i`.
pub open spec fn other_than(i: u32) -> spec_fn(u32) -> bool {
    |x: u32| x != i
}

/// `after` is `before` with chunk `i` recorded: an index of the file joins
/// the downloaded ones and leaves the missing ones, which keep their order;
/// any other index changes nothing.
pub open spec fn marked(before: FileTransfer, after: FileTransfer, i: u32) -> bool {
    &&& after.metadata == before.metadata
    &&& after.output_path == before.output_path
    &&& after.started_at == before.started_at
    &&& after.peers == before.peers
    &&& if i < before.total() {
        &&& after.downloaded_chunks@ == before.downloaded_chunks@.insert(i)
        &&& after.missing_chunks@ == before.missing_chunks@.filter(other_than(i))
    } else {
        after == before
    }
}

/// Recording a chunk never lowers the number downloaded, which stays at most
/// the number of chunks: progress only grows, and never past one.
pub proof fn lemma_progress_monotone(before: FileTransfer, after: FileTransfer, i: u32)
    requires
        before.wf(),
        after.wf(),
        marked(before, after, i),
    ensures
        after.total() == before.total(),
        before.downloaded_count() <= after.downloaded_count() <= after.total(),
{
    lemma_downloaded_bound(&before);
    lemma_downloaded_bound(&after);
    if i < before.total() {
        vstd::set_lib::lemma_len_subset(before.downloaded_chunks@, after.downloaded_chunks@);
    }
}

/// Recording the same chunk a second time changes nothing.
pub proof fn lemma_mark_idempotent(t0: FileTransfer, t1: FileTransfer, t2: FileTransfer, i: u32)
    requires
        t0.wf(),
        t1.wf(),
        marked(t0, t1, i),
        marked(t1, t2, i),
    ensures
        t2.downloaded_chunks@ == t1.downloaded_chunks@,
        t2.missing_chunks@ == t1.missing_chunks@,
        t2.downloaded_count() == t1.downloaded_count(),
        t2.metadata == t1.metadata,
        t2.output_path == t1.output_path,
{
    if i < t0.total() {
        let keep = other_than(i);
        let m = t1.missing_chunks@;
        assert(t1.downloaded_chunks@.contains(i));
        assert(!m.contains(i));
        assert(t2.downloaded_chunks@ =~= t1.downloaded_chunks@);
        assert(m.filter(keep) =~= m) by {
            lemma_filter_keeps_all(m, keep);
        }
        assert(t2.missing_chunks@ == m);
    }
}

/// Filtering with a predicate that every element meets keeps the sequence.
proof fn lemma_filter_keeps_all(s: Seq<u32>, p: spec_fn(u32) -> bool)
    requires
        forall|j: int| 0 <= j < s.len() ==> p(#[trigger] s[j]),
    ensures
        s.filter(p) == s,
    decreases s.len(),
{
    reveal(Seq::filter);
    if s.len() > 0 {
        lemma_filter_keeps_all(s.drop_last(), p);
        assert(s.drop_last().push(s.last()) =~= s);
    } else {
        assert(s.filter(p) =~= s);
    }
}

/// The downloaded and the missing indices never overlap, and together they
/// are every index of the file.
pub proof fn lemma_partition(t: &FileTransfer)
    requires
        t.wf(),
    ensures
        t.downloaded_chunks@.disjoint(t.missing_chunks@.to_set()),
        t.downloaded_chunks@.union(t.missing_chunks@.to_set()) == Set::new(
            |x: u32| (x as int) < t.total(),
        ),
{
    let m = t.missing_chunks@;
    assert forall|x: u32| #[trigger] m.to_set().contains(x) implies (x as int) < t.total() by {
        let i = choose|i: int| 0 <= i < m.len() && m[i] == x;
    }
    assert(t.downloaded_chunks@.union(m.to_set()) =~= Set::new(|x: u32| (x as int) < t.total()));
}

/// The downloaded indices are a finite set of at most `total` elements.
pub proof fn lemma_downloaded_bound(t: &FileTransfer)
    requires
        t.wf(),
    ensures
        t.downloaded_chunks@.finite(),
        0 <= t.downloaded_count() <= t.total(),
{
    let d = t.downloaded_chunks@;
    let f = |x: u32| x as int;
    let r = set_int_range(0, t.total());
    lemma_int_range(0, t.total());
    let small = Set::new(|x: u32| (x as int) < t.total());
    assert(small.map(f) =~= r) by {
        assert forall|i: int| r.contains(i) implies small.map(f).contains(i) by {
            assert(small.contains(i as u32));
            assert(f(i as u32) == i);
        }
    }
    assert(vstd::relations::injective_on(f, small));
    // small is finite: it maps injectively onto a finite set
    assert(small.finite()) by {
        let g = |i: int| i as u32;
        assert(r.map(g) =~= small) by {
            assert forall|x: u32| small.contains(x) implies r.map(g).contains(x) by {
                assert(r.contains(x as int));
            }
        }
        r.lemma_map_finite(g);
    }
    lemma_map_size(small, r, f);
    lemma_len_subset(d, small);
}

} // verus!

//! Peers as the transport names them, held as the bytes of their identifier.
use vstd::prelude::*;

verus! {

/// A transport-level peer identifier, held as its byte encoding.
#[derive(Debug)]
pub struct PeerKey {
    pub bytes: Vec<u8>,
}

impl View for PeerKey {
    type V = Seq<u8>;

    open spec fn view(&self) -> Seq<u8> {
        self.bytes@
    }
}

impl PeerKey {
    pub fn new(bytes: Vec<u8>) -> (r: PeerKey)
        ensures
            r@ == bytes@,
    {
        PeerKey { bytes }
    }

    /// Whether the two keys name the same peer.
    pub fn same(&self, other: &PeerKey) -> (r: bool)
        ensures
            r == (self@ == other@),
    {
        let n = self.bytes.len();
        if n != other.bytes.len() {
            return false;
        }
        let mut i: usize = 0;
        while i < n
            invariant
                n == self@.len(),
                n == other@.len(),
                0 <= i <= n,
                forall|j: int| 0 <= j < i ==> self@[j] == other@[j],
            decreases n - i,
        {
            if self.bytes[i] != other.bytes[i] {
                return false;
            }
            i = i + 1;
        }
        assert(self@ =~= other@);
        true
    }

    /// A copy of the key.
    pub fn duplicate(&self) -> (r: PeerKey)
        ensures
            r@ == self@,
    {
        PeerKey { bytes: self.bytes.clone() }
    }
}

} // verus!

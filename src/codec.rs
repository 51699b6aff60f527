//! Framing of messages on a byte stream: a 4-byte big-endian length, then
//! exactly that many bytes of encoded message.
use vstd::prelude::*;

verus! {

/// Largest body a frame can carry.
pub const MAX_FRAME_BODY: usize = 0xFFFF_FFFF;

/// The number a 4-byte big-endian prefix stands for.
pub open spec fn be_u32(b: Seq<u8>) -> int {
    b[0] * 0x100_0000 + b[1] * 0x1_0000 + b[2] * 0x100 + b[3]
}

/// A frame: the body's length as a 4-byte big-endian prefix, then the body.
pub open spec fn frame_of(body: Seq<u8>) -> Seq<u8> {
    seq![
        (body.len() / 0x100_0000) as u8,
        ((body.len() / 0x1_0000) % 0x100) as u8,
        ((body.len() / 0x100) % 0x100) as u8,
        (body.len() % 0x100) as u8,
    ] + body
}

/// Writes and reads message frames.
#[derive(Debug, Clone, Copy)]
pub struct CoreLinkCodec;

impl CoreLinkCodec {
    /// The 4-byte big-endian prefix for a body of `len` bytes.
    pub fn length_prefix(len: u32) -> (r: [u8; 4])
        ensures
            be_u32(r@) == len,
            r@ == seq![
                (len / 0x100_0000) as u8,
                ((len / 0x1_0000) % 0x100) as u8,
                ((len / 0x100) % 0x100) as u8,
                (len % 0x100) as u8,
            ],
    {
        let b0 = (len >> 24) as u8;
        let b1 = ((len >> 16) & 0xff) as u8;
        let b2 = ((len >> 8) & 0xff) as u8;
        let b3 = (len & 0xff) as u8;
        assert(b0 == len / 0x100_0000 && b1 == (len / 0x1_0000) % 0x100 && b2 == (len / 0x100)
            % 0x100 && b3 == len % 0x100) by (bit_vector)
            requires
                b0 == (len >> 24) as u8,
                b1 == ((len >> 16) & 0xff) as u8,
                b2 == ((len >> 8) & 0xff) as u8,
                b3 == (len & 0xff) as u8,
        ;
        let r = [b0, b1, b2, b3];
        assert(r@ =~= seq![b0, b1, b2, b3]);
        r
    }

    /// The body length a 4-byte big-endian prefix announces.
    pub fn frame_length(prefix: &[u8; 4]) -> (r: u32)
        ensures
            r == be_u32(prefix@),
    {
        let b0 = prefix[0];
        let b1 = prefix[1];
        let b2 = prefix[2];
        let b3 = prefix[3];
        let r = (b0 as u32) << 24 | (b1 as u32) << 16 | (b2 as u32) << 8 | (b3 as u32);
        assert(r == b0 as u32 * 0x100_0000u32 + b1 as u32 * 0x1_0000u32 + b2 as u32 * 0x100u32
            + b3 as u32) by (bit_vector)
            requires
                r == (b0 as u32) << 24 | (b1 as u32) << 16 | (b2 as u32) << 8 | (b3 as u32),
        ;
        r
    }

    /// The frame carrying `body`; none where the body is too long for its
    /// length to fit the prefix.
    pub fn encode_frame(body: &[u8]) -> (r: Option<Vec<u8>>)
        ensures
            body@.len() <= MAX_FRAME_BODY ==> (r matches Some(f) && f@ == frame_of(body@)),
            body@.len() > MAX_FRAME_BODY ==> r is None,
    {
        if body.len() > MAX_FRAME_BODY {
            return None;
        }
        let prefix = Self::length_prefix(body.len() as u32);
        let mut out: Vec<u8> = Vec::new();
        out.push(prefix[0]);
        out.push(prefix[1]);
        out.push(prefix[2]);
        out.push(prefix[3]);
        out.extend_from_slice(body);
        assert(out@ =~= frame_of(body@));
        Some(out)
    }

    /// Reads one frame from the front of `buf`: its body and how many bytes
    /// it took; none while `buf` does not yet hold a whole frame.
    pub fn decode_frame(buf: &[u8]) -> (r: Option<(Vec<u8>, usize)>)
        ensures
            match r {
                Some((body, used)) => {
                    &&& buf@.len() >= 4
                    &&& body@.len() == be_u32(buf@.take(4))
                    &&& used == 4 + body@.len()
                    &&& used <= buf@.len()
                    &&& body@ == buf@.subrange(4, used as int)
                },
                None => buf@.len() < 4 || buf@.len() < 4 + be_u32(buf@.take(4)),
            },
    {
        if buf.len() < 4 {
            return None;
        }
        let prefix: [u8; 4] = [buf[0], buf[1], buf[2], buf[3]];
        assert(prefix@ =~= buf@.take(4));
        let len = Self::frame_length(&prefix) as usize;
        if buf.len() - 4 < len {
            return None;
        }
        let body = crate::file::copy_range(buf, 4, 4 + len);
        Some((body, 4 + len))
    }
}

/// Reading back a frame gives the body it was made from, and takes exactly
/// the frame.
pub proof fn lemma_frame_round_trip(body: Seq<u8>)
    requires
        body.len() <= MAX_FRAME_BODY,
    ensures
        frame_of(body).len() == 4 + body.len(),
        be_u32(frame_of(body).take(4)) == body.len(),
        frame_of(body).subrange(4, 4 + body.len() as int) == body,
{
    let n = body.len();
    let f = frame_of(body);
    assert(f.subrange(4, 4 + n as int) =~= body);
    let b0 = (n / 0x100_0000) as u8;
    let b1 = ((n / 0x1_0000) % 0x100) as u8;
    let b2 = ((n / 0x100) % 0x100) as u8;
    let b3 = (n % 0x100) as u8;
    assert(f[0] == b0 && f[1] == b1 && f[2] == b2 && f[3] == b3);
    let m = n as u32;
    assert(b0 * 0x100_0000 + b1 * 0x1_0000 + b2 * 0x100 + b3 == n) by {
        assert((m / 0x100_0000) as u8 * 0x100_0000u64 + ((m / 0x1_0000) % 0x100) as u8 * 0x1_0000u64
            + ((m / 0x100) % 0x100) as u8 * 0x100u64 + (m % 0x100) as u8 == m) by (bit_vector);
    }
}

} // verus!

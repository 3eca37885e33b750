//! Length-prefixed framing for the parent wire.
//!
//! Every message travels as one frame: a 4-byte big-endian length `L`
//! followed by exactly `L` bytes of message body. Bodies longer than
//! [`MAX_FRAME_LEN`] are rejected in both directions.

use vstd::prelude::*;

verus! {

use vstd::arithmetic::div_mod::{lemma_div_denominator, lemma_fundamental_div_mod};

/// Largest frame body the wire accepts: 10 MiB.
pub const MAX_FRAME_LEN: usize = 10 * 1024 * 1024;

/// The 4-byte big-endian encoding of a 32-bit length.
pub open spec fn be32_bytes(n: u32) -> Seq<u8> {
    seq![
        ((n as int / 0x1000000) % 256) as u8,
        ((n as int / 0x10000) % 256) as u8,
        ((n as int / 0x100) % 256) as u8,
        ((n as int) % 256) as u8,
    ]
}

/// The value of four bytes read as a big-endian 32-bit integer.
pub open spec fn be32_value(s: Seq<u8>) -> int
    recommends
        s.len() == 4,
{
    s[0] as int * 0x1000000 + s[1] as int * 0x10000 + s[2] as int * 0x100 + s[3] as int
}

/// One frame on the wire: the body's length, then the body.
pub open spec fn frame_bytes(body: Seq<u8>) -> Seq<u8>
    recommends
        body.len() <= MAX_FRAME_LEN,
{
    be32_bytes(body.len() as u32) + body
}

/// Encode a 32-bit length as four big-endian bytes.
pub fn encode_be32(n: u32) -> (r: Vec<u8>)
    ensures
        r@ == be32_bytes(n),
{
    let mut r: Vec<u8> = Vec::new();
    r.push((n / 0x1000000) as u8);
    r.push((n / 0x10000 % 256) as u8);
    r.push((n / 0x100 % 256) as u8);
    r.push((n % 256) as u8);
    proof {
        assert(r@ =~= be32_bytes(n));
    }
    r
}

/// Read four bytes as a big-endian 32-bit length.
pub fn decode_be32(h: &Vec<u8>) -> (n: u32)
    requires
        h@.len() >= 4,
    ensures
        n as int == be32_value(h@.take(4)),
{
    let n = (h[0] as u32) * 0x1000000 + (h[1] as u32) * 0x10000 + (h[2] as u32) * 0x100
        + (h[3] as u32);
    proof {
        assert(h@.take(4)[0] == h@[0]);
        assert(h@.take(4)[1] == h@[1]);
        assert(h@.take(4)[2] == h@[2]);
        assert(h@.take(4)[3] == h@[3]);
    }
    n
}

/// A frame body that does not fit the wire's length limit.
#[derive(Debug, PartialEq, Eq, Structural)]
pub enum FrameError {
    Oversize,
}

/// Frame a message body for the wire: its length, big-endian, then its bytes.
/// A body over [`MAX_FRAME_LEN`] is refused, so that everything this side
/// emits stays decodable by the peer's symmetric limit.
pub fn encode_frame(body: &Vec<u8>) -> (r: Result<Vec<u8>, FrameError>)
    ensures
        body@.len() <= MAX_FRAME_LEN ==> (r matches Ok(f) && f@ == frame_bytes(body@)),
        body@.len() > MAX_FRAME_LEN ==> r is Err,
{
    if body.len() > MAX_FRAME_LEN {
        return Err(FrameError::Oversize);
    }
    let mut out = encode_be32(body.len() as u32);
    let ghost prefix = out@;
    let mut i: usize = 0;
    while i < body.len()
        invariant
            i <= body@.len(),
            body@.len() <= MAX_FRAME_LEN,
            out@ == prefix + body@.take(i as int),
            prefix == be32_bytes(body@.len() as u32),
        decreases body@.len() - i,
    {
        out.push(body[i]);
        proof {
            assert(body@.take(i + 1) =~= body@.take(i as int).push(body@[i as int]));
        }
        i = i + 1;
    }
    proof {
        assert(body@.take(body@.len() as int) =~= body@);
    }
    Ok(out)
}

/// What the decoder concludes from the bytes buffered so far, given whether
/// the stream has already ended.
pub enum FrameDecode {
    /// The buffer does not yet hold a complete frame; read more.
    NeedMore,
    /// The stream ended before a full length prefix arrived: a clean end of
    /// stream, not an error.
    EndOfStream,
    /// The stream ended inside a frame body.
    TruncatedFrame,
    /// The announced body length exceeds [`MAX_FRAME_LEN`].
    Oversize { len: u32 },
    /// One complete frame: its body, and how many buffered bytes it used.
    Frame { body: Vec<u8>, consumed: usize },
}

/// Decode the next frame out of `buf`, the bytes read from the wire and not
/// yet consumed. `eof` says the stream has ended and no more bytes follow.
pub fn decode_frame(buf: &Vec<u8>, eof: bool) -> (r: FrameDecode)
    ensures
        buf@.len() < 4 && eof ==> r is EndOfStream,
        buf@.len() < 4 && !eof ==> r is NeedMore,
        buf@.len() >= 4 ==> {
            let len = be32_value(buf@.take(4));
            &&& len > MAX_FRAME_LEN ==> (r matches FrameDecode::Oversize { len: l } && l as int
                == len)
            &&& len <= MAX_FRAME_LEN && buf@.len() < 4 + len && eof ==> r is TruncatedFrame
            &&& len <= MAX_FRAME_LEN && buf@.len() < 4 + len && !eof ==> r is NeedMore
            &&& len <= MAX_FRAME_LEN && buf@.len() >= 4 + len ==> (r matches FrameDecode::Frame {
                body,
                consumed,
            } && body@ == buf@.subrange(4, 4 + len) && consumed as int == 4 + len)
        },
{
    if buf.len() < 4 {
        if eof {
            return FrameDecode::EndOfStream;
        }
        return FrameDecode::NeedMore;
    }
    let len32 = decode_be32(buf);
    let len = len32 as usize;
    if len > MAX_FRAME_LEN {
        return FrameDecode::Oversize { len: len32 };
    }
    if buf.len() - 4 < len {
        if eof {
            return FrameDecode::TruncatedFrame;
        }
        return FrameDecode::NeedMore;
    }
    let mut body: Vec<u8> = Vec::new();
    let mut i: usize = 0;
    while i < len
        invariant
            i <= len,
            len <= MAX_FRAME_LEN,
            len + 4 <= buf@.len(),
            body@ == buf@.subrange(4, 4 + i as int),
        decreases len - i,
    {
        body.push(buf[4 + i]);
        proof {
            assert(buf@.subrange(4, 4 + (i + 1 as int)) =~= buf@.subrange(4, 4 + i as int).push(
                buf@[4 + i as int],
            ));
        }
        i = i + 1;
    }
    FrameDecode::Frame { body, consumed: 4 + len }
}

/// A length round-trips through its four big-endian bytes.
pub proof fn lemma_be32_round_trip(n: u32)
    ensures
        be32_value(be32_bytes(n)) == n as int,
{
    let v = n as int;
    lemma_fundamental_div_mod(v, 0x100);
    lemma_fundamental_div_mod(v / 0x100, 0x100);
    lemma_fundamental_div_mod(v / 0x10000, 0x100);
    lemma_div_denominator(v, 0x100, 0x100);
    lemma_div_denominator(v, 0x10000, 0x100);
    assert(v / 0x1000000 < 0x100) by {
        lemma_div_denominator(v, 0x1000000, 0x100);
    };
}

/// A body within the length limit round-trips through its frame: the first
/// four bytes decode to its length, and the rest is the body itself. With
/// the contract of [`decode_frame`], every frame [`encode_frame`] emits is
/// decoded back to exactly the body it was built from; a frame with an empty
/// body is valid and round-trips like any other.
pub proof fn lemma_frame_round_trip(body: Seq<u8>)
    requires
        body.len() <= MAX_FRAME_LEN,
    ensures
        frame_bytes(body).len() == 4 + body.len(),
        be32_value(frame_bytes(body).take(4)) == body.len(),
        frame_bytes(body).subrange(4, 4 + body.len() as int) == body,
{
    let f = frame_bytes(body);
    assert(f.take(4) =~= be32_bytes(body.len() as u32));
    lemma_be32_round_trip(body.len() as u32);
    assert(f.subrange(4, 4 + body.len() as int) =~= body);
}

} // verus!
